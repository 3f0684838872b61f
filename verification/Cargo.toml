[package]
name = "chat_pacing"
version = "0.1.0"
edition = "2021"
publish = false

[dependencies]
rand = "0.8"
tokio = { version = "*", features = ["rt-multi-thread", "macros", "time", "sync"] }
tokio-util = "*"
serde_json = "*"
chrono = "*"
rusqlite = { version = "*", features = ["bundled"] }
