//! The conversational context one decision is made under.

use vstd::prelude::*;
use crate::RATE_ONE;

verus! {

/// The companion's current mood, as estimated by the external
/// character-state provider.
#[derive(Clone, Copy, Debug, PartialEq, Eq, Structural)]
pub enum Mood {
    Happy,
    Neutral,
    Busy,
    Tired,
    Annoyed,
    /// Any mood the engine has no special handling for.
    Other,
}

/// Conversational state for one (session, contact) pair. Constructed per
/// decision call from the external character-state provider; never persisted.
#[derive(Clone, Copy, Debug)]
pub struct SessionContext {
    pub session_id: i64,
    pub contact_id: i64,
    /// Current mood, when known.
    pub mood: Option<Mood>,
    /// Busyness in [0, 1], in units of 1/10000, when known.
    pub busy_level: Option<u32>,
    /// Conversational interest in [0, 1], in units of 1/10000, when known.
    pub interest_level: Option<u32>,
}

impl SessionContext {
    /// Validity: the optional levels lie in [0, 1].
    pub open spec fn wf(self) -> bool {
        &&& (self.busy_level matches Some(b) ==> b <= RATE_ONE)
        &&& (self.interest_level matches Some(i) ==> i <= RATE_ONE)
    }

    /// A context with nothing known about the character's state.
    pub fn bare(session_id: i64, contact_id: i64) -> (r: Self)
        ensures
            r.session_id == session_id,
            r.contact_id == contact_id,
            r.mood is None,
            r.busy_level is None,
            r.interest_level is None,
            r.wf(),
    {
        SessionContext { session_id, contact_id, mood: None, busy_level: None, interest_level: None }
    }
}

} // verus!
