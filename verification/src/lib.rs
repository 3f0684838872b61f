//! A library that simulates human conversational pacing for a chat companion.
//!
//! Instead of emitting a reply instantly, the behavior decision engine decides
//! whether, when, and how split up a reply should appear, and the chain
//! scheduler model executes that decision as an interruptible, time-ordered
//! sequence of actions.
//!
//! Probabilities and scale factors are fixed-point integers in units of
//! 1/10000 (`RATE_ONE`); in-chain delays are milliseconds; proactive idle
//! thresholds and cooldowns are minutes.

use vstd::prelude::*;

pub mod actions;
pub mod analyzer;
pub mod assoc;
pub mod chat_store;
pub mod context;
pub mod engine;
pub mod executor;
pub mod laws;
pub mod models;
pub mod monitor;
mod rng;
pub mod scheduler;
pub mod social;
pub mod settings;
pub mod text;

verus! {

/// Fixed-point scale: `RATE_ONE` stands for probability 1.0 (or factor 1.0x).
pub const RATE_ONE: u32 = 10000;

/// Upper bound on the character count of a message the engine works on, so
/// that the delay arithmetic stays inside 64 bits.
pub const MAX_MESSAGE_CHARS: usize = 0x0100_0000;

/// `v` clamped into [lo, hi].
pub open spec fn clamp_int(v: int, lo: int, hi: int) -> int {
    if v < lo {
        lo
    } else if v > hi {
        hi
    } else {
        v
    }
}

/// Scale `v` by a fixed-point factor `f` in units of 1/10000.
pub fn scale10k(v: u64, f: u64) -> (r: u64)
    requires
        v <= 0x1_0000_0000u64,
        f <= 20000,
    ensures
        r == v as int * f as int / 10000,
        r <= 2 * v,
        f <= 10000 ==> r <= v,
{
    proof {
        assert(v as int * f as int <= 0x1_0000_0000int * 20000) by (nonlinear_arith)
            requires
                0 <= v <= 0x1_0000_0000int,
                0 <= f <= 20000,
        ;
        assert(v as int * f as int / 10000 <= 2 * v) by (nonlinear_arith)
            requires
                0 <= f <= 20000,
                v >= 0,
        ;
        if f <= 10000 {
            assert(v as int * f as int / 10000 <= v) by (nonlinear_arith)
                requires
                    0 <= f <= 10000,
                    v >= 0,
            ;
        }
    }
    v * f / 10000
}

/// Clamp a 64-bit value into an inclusive `u32` range.
pub fn clamp_u64(v: u64, lo: u32, hi: u32) -> (r: u32)
    requires
        lo <= hi,
    ensures
        lo <= r <= hi,
        r == clamp_int(v as int, lo as int, hi as int),
{
    if v < lo as u64 {
        lo
    } else if v > hi as u64 {
        hi
    } else {
        v as u32
    }
}

} // verus!
