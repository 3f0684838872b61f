//! Social-mode data models: contacts, groups, their sessions and messages,
//! as the persistence layer stores them.

use vstd::prelude::*;

verus! {

/// One chat contact (an AI persona).
#[derive(Debug, Clone)]
pub struct Contact {
    pub id: i64,
    pub name: String,
    pub avatar: Option<String>,
    pub group_id: Option<i64>,
    pub status: Option<String>,
    pub prompt: Option<String>,
    pub model: Option<String>,
    pub provider: Option<String>,
}

/// A contact group.
#[derive(Debug, Clone)]
pub struct Group {
    pub id: i64,
    pub name: String,
    pub sort_order: i32,
}

/// One conversation with a contact.
#[derive(Debug, Clone)]
pub struct SocialSession {
    pub id: i64,
    pub contact_id: i64,
    pub title: String,
    pub created_at: String,
    pub updated_at: String,
}

/// The user's own profile.
#[derive(Debug, Clone)]
pub struct Profile {
    pub id: i64,
    pub nickname: String,
    pub avatar: Option<String>,
    pub bio: Option<String>,
}

/// One message in a social session; this is what a `Speak` persists and a
/// `Retract` deletes.
#[derive(Debug, Clone)]
pub struct SocialMessage {
    pub id: Option<i64>,
    pub contact_id: i64,
    pub session_id: Option<i64>,
    pub role: String,
    pub content: String,
    pub file_metadata: Option<String>,
    pub created_at: Option<String>,
}

/// A contact together with its latest message, for the recent-chats list.
#[derive(Debug, Clone)]
pub struct SocialConversation {
    pub contact: Contact,
    pub last_message: Option<String>,
    pub last_message_time: Option<String>,
    pub unread_count: i32,
}

} // verus!
