//! Plain-chat data models with numeric ids, as the chat store keeps them.

use vstd::prelude::*;

verus! {

/// One stored chat session.
#[derive(Debug, Clone)]
pub struct ChatSession {
    pub id: i64,
    pub folder_id: Option<i64>,
    pub title: String,
    pub last_scroll_pos: i32,
    pub sort_order: i32,
    pub updated_at: String,
}

/// One stored session folder.
#[derive(Debug, Clone)]
pub struct Folder {
    pub id: i64,
    pub name: String,
    pub sort_order: i32,
    pub is_collapsed: bool,
}

/// One stored chat message.
#[derive(Debug, Clone)]
pub struct ChatMessage {
    pub id: Option<i64>,
    pub session_id: i64,
    pub role: String,
    pub content: String,
    pub reasoning_content: Option<String>,
    pub file_metadata: Option<String>,
    pub search_metadata: Option<String>,
    pub created_at: Option<String>,
}

} // verus!
