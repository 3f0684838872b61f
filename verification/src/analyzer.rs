//! Character-state analysis: when to re-estimate the companion's mood, and
//! the fallback estimate drawn from the recent message count alone.
//!
//! The real estimate comes from the external AI backend; this core only
//! decides when an analysis is due and supplies the backend-free inference.

use vstd::prelude::*;
use crate::context::Mood;
use crate::RATE_ONE;

verus! {

/// The tracked state of one (contact, session) pair. Levels are in units of
/// 1/10000; `last_analyzed` is a timestamp string owned by the store.
#[derive(Debug, Clone)]
pub struct CharacterState {
    pub contact_id: i64,
    pub session_id: i64,
    pub mood: Mood,
    pub busy_level: u32,
    pub interest_level: u32,
    pub message_count: u32,
    pub last_analyzed: String,
}

/// What one analysis concludes.
#[derive(Debug, Clone)]
pub struct StateAnalysisResult {
    pub mood: Mood,
    pub busy_level: u32,
    pub interest_level: u32,
    pub reasoning: Option<String>,
}

/// Decides when a character-state analysis is due.
pub struct StateAnalyzer {}

impl StateAnalyzer {
    pub fn new() -> (r: Self)
        ensures
            true,
    {
        StateAnalyzer {  }
    }

    /// An analysis is due when the cached one has expired and enough messages
    /// have arrived since the last one.
    pub fn should_analyze(&self, cache_valid: bool, message_count: u32, analysis_frequency: u32)
        -> (r: bool)
        ensures
            r == (!cache_valid && message_count >= analysis_frequency),
    {
        !cache_valid && message_count >= analysis_frequency
    }

    /// The backend-free estimate: a busy mood over ten recent messages, a
    /// happy one under six; busyness grows with the count (one message adds
    /// 0.05) and caps at 1; interest defaults to 0.5.
    pub fn analyze_state(&self, contact_id: i64, session_id: i64, recent_count: usize) -> (r:
        StateAnalysisResult)
        ensures
            r.mood == if recent_count > 10 {
                Mood::Busy
            } else if recent_count > 5 {
                Mood::Neutral
            } else {
                Mood::Happy
            },
            r.busy_level == if recent_count >= 20 {
                RATE_ONE as int
            } else {
                500 * recent_count
            },
            r.busy_level <= RATE_ONE,
            r.interest_level == 5000,
    {
        let mood = if recent_count > 10 {
            Mood::Busy
        } else if recent_count > 5 {
            Mood::Neutral
        } else {
            Mood::Happy
        };
        let busy_level: u32 = if recent_count >= 20 {
            RATE_ONE
        } else {
            500 * (recent_count as u32)
        };
        let _ = contact_id;
        let _ = session_id;
        StateAnalysisResult { mood, busy_level, interest_level: 5000, reasoning: None }
    }
}

impl Default for StateAnalyzer {
    fn default() -> (r: Self)
        ensures
            true,
    {
        StateAnalyzer::new()
    }
}

} // verus!
