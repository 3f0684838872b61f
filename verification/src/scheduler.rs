//! The chain scheduler's bookkeeping: a registry that maps each session to
//! the cancellation handle of its one active chain, the set of handles that
//! have been told to cancel, and the per-session activity tracker the idle
//! monitor consults.
//!
//! This is the decision core of the scheduler; the surrounding application
//! owns the real timers and cancellation tokens and mirrors this model:
//! whenever an operation here reports a handle as cancelled, the application
//! cancels the corresponding token.

use vstd::prelude::*;
use crate::assoc::{
    assoc_lookup, find_key, keys_unique, lemma_lookup_absent, lemma_lookup_present,
    lemma_lookup_push, lemma_lookup_remove, lemma_lookup_some_index, lemma_unique_push,
    lemma_unique_remove,
};

verus! {

/// When a session was last touched, in milliseconds of some fixed clock, and
/// when it last received a proactive message.
#[derive(Clone, Copy, Debug, PartialEq, Eq, Structural)]
pub struct SessionActivity {
    pub last_interaction: u64,
    pub last_proactive: Option<u64>,
}

/// The scheduler model: at most one live chain handle per session, a
/// monotone set of cancelled handles, and the activity tracker.
pub struct MessageScheduler {
    active: Vec<(i64, u64)>,
    cancelled: Vec<u64>,
    next_handle: u64,
    activities: Vec<(i64, SessionActivity)>,
}

impl MessageScheduler {
    /// The handle of the session's active chain, if one is registered.
    pub closed spec fn active_handle(&self, session_id: i64) -> Option<u64> {
        assoc_lookup(self.active@, session_id)
    }

    /// Whether handle `h` has been told to cancel.
    pub closed spec fn is_cancelled(&self, h: u64) -> bool {
        self.cancelled@.contains(h)
    }

    /// The tracked activity of a session.
    pub closed spec fn activity_of(&self, session_id: i64) -> Option<SessionActivity> {
        assoc_lookup(self.activities@, session_id)
    }

    /// Number of sessions with an active chain.
    pub closed spec fn spec_active_count(&self) -> nat {
        self.active@.len()
    }

    /// Number of sessions the tracker knows.
    pub closed spec fn spec_tracked_count(&self) -> nat {
        self.activities@.len()
    }

    /// The next handle to hand out; handles below it may be in use.
    pub closed spec fn spec_next_handle(&self) -> u64 {
        self.next_handle
    }

    /// Internal consistency: unique keys, and every known handle lies below
    /// `next_handle`.
    pub closed spec fn wf(&self) -> bool {
        &&& keys_unique(self.active@)
        &&& keys_unique(self.activities@)
        &&& forall|j: int|
            0 <= j < self.active@.len() ==> (#[trigger] self.active@[j]).1 < self.next_handle
        &&& forall|j: int|
            0 <= j < self.cancelled@.len() ==> #[trigger] self.cancelled@[j] < self.next_handle
    }

    /// A fresh scheduler: nothing active, nothing cancelled, nothing tracked.
    pub fn new() -> (r: Self)
        ensures
            r.wf(),
            r.spec_active_count() == 0,
            r.spec_tracked_count() == 0,
            r.spec_next_handle() == 0,
            forall|sid: i64| r.active_handle(sid) is None,
            forall|sid: i64| r.activity_of(sid) is None,
            forall|h: u64| !r.is_cancelled(h),
    {
        let r = MessageScheduler {
            active: Vec::new(),
            cancelled: Vec::new(),
            next_handle: 0,
            activities: Vec::new(),
        };
        proof {
            assert(forall|sid: i64| r.active_handle(sid) is None);
            assert(forall|sid: i64| r.activity_of(sid) is None);
        }
        r
    }

    /// How many chains are currently registered.
    pub fn active_count(&self) -> (n: usize)
        ensures
            n == self.spec_active_count(),
    {
        self.active.len()
    }

    /// Record that the session was interacted with now, keeping its
    /// last-proactive stamp.
    pub fn touch_session(&mut self, session_id: i64, now_ms: u64)
        requires
            old(self).wf(),
        ensures
            final(self).wf(),
            final(self).activity_of(session_id) matches Some(a) && a.last_interaction == now_ms
                && a.last_proactive == match old(self).activity_of(session_id) {
                Some(prev) => prev.last_proactive,
                None => None,
            },
            forall|s2: i64|
                s2 != session_id ==> final(self).activity_of(s2) == old(self).activity_of(s2),
            forall|s2: i64| final(self).active_handle(s2) == old(self).active_handle(s2),
            forall|h: u64| final(self).is_cancelled(h) == old(self).is_cancelled(h),
            final(self).spec_next_handle() == old(self).spec_next_handle(),
            final(self).spec_active_count() == old(self).spec_active_count(),
    {
        let last_proactive: Option<u64> = match find_key(&self.activities, session_id) {
            Some(i) => {
                proof {
                    lemma_lookup_present(self.activities@, i as int);
                }
                let prev = self.activities[i].1.last_proactive;
                let ghost pre = self.activities@;
                self.activities.remove(i);
                proof {
                    lemma_unique_remove(pre, i as int);
                    assert(forall|k: i64|
                        #[trigger] assoc_lookup(self.activities@, k) == if k == pre[i as int].0 {
                            None::<SessionActivity>
                        } else {
                            assoc_lookup(pre, k)
                        }) by {
                        assert forall|k: i64| true implies #[trigger] assoc_lookup(
                            self.activities@,
                            k,
                        ) == if k == pre[i as int].0 {
                            None::<SessionActivity>
                        } else {
                            assoc_lookup(pre, k)
                        } by {
                            lemma_lookup_remove(pre, i as int, k);
                        }
                    }
                }
                prev
            },
            None => {
                proof {
                    lemma_lookup_absent(self.activities@, session_id);
                }
                None
            },
        };
        let ghost mid = self.activities@;
        proof {
            lemma_lookup_absent(mid, session_id);
        }
        let entry = SessionActivity { last_interaction: now_ms, last_proactive };
        self.activities.push((session_id, entry));
        proof {
            assert(forall|j: int| 0 <= j < mid.len() ==> (#[trigger] mid[j]).0 != session_id) by {
                if exists|j: int| 0 <= j < mid.len() && (#[trigger] mid[j]).0 == session_id {
                    let j = choose|j: int|
                        0 <= j < mid.len() && (#[trigger] mid[j]).0 == session_id;
                    lemma_lookup_present(mid, j);
                }
            }
            lemma_unique_push(mid, session_id, entry);
            assert forall|k: i64| true implies #[trigger] assoc_lookup(self.activities@, k) == if k
                == session_id {
                Some(entry)
            } else {
                assoc_lookup(mid, k)
            } by {
                lemma_lookup_push(mid, session_id, entry, k);
            }
        }
    }

    /// Record that a proactive message was just sent to the session; a
    /// session the tracker does not know stays unknown.
    pub fn mark_proactive(&mut self, session_id: i64, now_ms: u64)
        requires
            old(self).wf(),
        ensures
            final(self).wf(),
            match old(self).activity_of(session_id) {
                Some(prev) => final(self).activity_of(session_id) == Some(
                    SessionActivity {
                        last_interaction: prev.last_interaction,
                        last_proactive: Some(now_ms),
                    },
                ),
                None => final(self).activity_of(session_id) is None,
            },
            forall|s2: i64|
                s2 != session_id ==> final(self).activity_of(s2) == old(self).activity_of(s2),
            forall|s2: i64| final(self).active_handle(s2) == old(self).active_handle(s2),
            forall|h: u64| final(self).is_cancelled(h) == old(self).is_cancelled(h),
            final(self).spec_next_handle() == old(self).spec_next_handle(),
    {
        match find_key(&self.activities, session_id) {
            Some(i) => {
                proof {
                    lemma_lookup_present(self.activities@, i as int);
                }
                let prev = self.activities[i].1;
                let ghost pre = self.activities@;
                self.activities.remove(i);
                proof {
                    lemma_unique_remove(pre, i as int);
                    assert forall|k: i64| true implies #[trigger] assoc_lookup(
                        self.activities@,
                        k,
                    ) == if k == session_id {
                        None::<SessionActivity>
                    } else {
                        assoc_lookup(pre, k)
                    } by {
                        lemma_lookup_remove(pre, i as int, k);
                    }
                }
                let ghost mid = self.activities@;
                proof {
                    lemma_lookup_absent(mid, session_id);
                }
                let entry = SessionActivity {
                    last_interaction: prev.last_interaction,
                    last_proactive: Some(now_ms),
                };
                self.activities.push((session_id, entry));
                proof {
                    assert(forall|j: int|
                        0 <= j < mid.len() ==> (#[trigger] mid[j]).0 != session_id) by {
                        if exists|j: int| 0 <= j < mid.len() && (#[trigger] mid[j]).0
                            == session_id {
                            let j = choose|j: int|
                                0 <= j < mid.len() && (#[trigger] mid[j]).0 == session_id;
                            lemma_lookup_present(mid, j);
                        }
                    }
                    lemma_unique_push(mid, session_id, entry);
                    assert forall|k: i64| true implies #[trigger] assoc_lookup(
                        self.activities@,
                        k,
                    ) == if k == session_id {
                        Some(entry)
                    } else {
                        assoc_lookup(mid, k)
                    } by {
                        lemma_lookup_push(mid, session_id, entry, k);
                    }
                }
            },
            None => {
                proof {
                    lemma_lookup_absent(self.activities@, session_id);
                }
            },
        }
    }

    /// Look up the tracked activity of a session.
    pub fn get_activity(&self, session_id: i64) -> (r: Option<SessionActivity>)
        requires
            self.wf(),
        ensures
            r == self.activity_of(session_id),
    {
        match find_key(&self.activities, session_id) {
            Some(i) => {
                proof {
                    lemma_lookup_present(self.activities@, i as int);
                }
                Some(self.activities[i].1)
            },
            None => {
                proof {
                    lemma_lookup_absent(self.activities@, session_id);
                }
                None
            },
        }
    }

    /// The ids of all tracked sessions, for the idle monitor's sweep.
    pub fn tracked_sessions(&self) -> (r: Vec<i64>)
        requires
            self.wf(),
        ensures
            r@.len() == self.spec_tracked_count(),
            forall|j: int| 0 <= j < r@.len() ==> self.activity_of(#[trigger] r@[j]) is Some,
    {
        let mut r: Vec<i64> = Vec::new();
        let mut i: usize = 0;
        while i < self.activities.len()
            invariant
                self.wf(),
                i <= self.activities@.len(),
                r@.len() == i,
                forall|j: int| 0 <= j < i ==> r@[j] == (#[trigger] self.activities@[j]).0,
                forall|j: int| 0 <= j < r@.len() ==> self.activity_of(#[trigger] r@[j]) is Some,
            decreases self.activities@.len() - i,
        {
            proof {
                lemma_lookup_present(self.activities@, i as int);
            }
            r.push(self.activities[i].0);
            i = i + 1;
        }
        r
    }

    /// Whether a handle has been told to cancel.
    pub fn is_cancelled_handle(&self, h: u64) -> (r: bool)
        ensures
            r == self.is_cancelled(h),
    {
        let mut i: usize = 0;
        while i < self.cancelled.len()
            invariant
                i <= self.cancelled@.len(),
                forall|j: int| 0 <= j < i ==> self.cancelled@[j] != h,
            decreases self.cancelled@.len() - i,
        {
            if self.cancelled[i] == h {
                return true;
            }
            i = i + 1;
        }
        false
    }

    /// Cancel and unregister the session's active chain, if any; the
    /// cancelled handle is returned so the caller can cancel its real token.
    pub fn cancel_session_behaviors(&mut self, session_id: i64) -> (h: Option<u64>)
        requires
            old(self).wf(),
        ensures
            final(self).wf(),
            h == old(self).active_handle(session_id),
            final(self).active_handle(session_id) is None,
            forall|s2: i64|
                s2 != session_id ==> final(self).active_handle(s2) == old(self).active_handle(s2),
            forall|g: u64| old(self).is_cancelled(g) ==> final(self).is_cancelled(g),
            forall|g: u64|
                final(self).is_cancelled(g) ==> old(self).is_cancelled(g) || h == Some(g),
            h matches Some(g) ==> final(self).is_cancelled(g),
            forall|s2: i64| final(self).activity_of(s2) == old(self).activity_of(s2),
            final(self).spec_next_handle() == old(self).spec_next_handle(),
    {
        match find_key(&self.active, session_id) {
            Some(i) => {
                proof {
                    lemma_lookup_present(self.active@, i as int);
                }
                let ghost pre = self.active@;
                let entry = self.active.remove(i);
                proof {
                    lemma_unique_remove(pre, i as int);
                    assert forall|k: i64| true implies #[trigger] assoc_lookup(self.active@, k)
                        == if k == session_id {
                        None::<u64>
                    } else {
                        assoc_lookup(pre, k)
                    } by {
                        lemma_lookup_remove(pre, i as int, k);
                    }
                }
                let ghost oldc = self.cancelled@;
                self.cancelled.push(entry.1);
                proof {
                    assert(self.cancelled@[self.cancelled@.len() - 1] == entry.1);
                    assert forall|g: u64| oldc.contains(g) implies self.cancelled@.contains(g) by {
                        let j = choose|j: int| 0 <= j < oldc.len() && oldc[j] == g;
                        assert(self.cancelled@[j] == g);
                    }
                    assert forall|g: u64| self.cancelled@.contains(g) implies oldc.contains(g) || g
                        == entry.1 by {
                        let j = choose|j: int|
                            0 <= j < self.cancelled@.len() && self.cancelled@[j] == g;
                        if j < oldc.len() {
                            assert(oldc[j] == g);
                        }
                    }
                }
                Some(entry.1)
            },
            None => {
                proof {
                    lemma_lookup_absent(self.active@, session_id);
                }
                None
            },
        }
    }

    /// Cancel and unregister every active chain; the handles are returned so
    /// the caller can cancel the real tokens.
    pub fn cancel_all_behaviors(&mut self) -> (hs: Vec<u64>)
        requires
            old(self).wf(),
        ensures
            final(self).wf(),
            forall|sid: i64| final(self).active_handle(sid) is None,
            final(self).spec_active_count() == 0,
            forall|g: u64| old(self).is_cancelled(g) ==> final(self).is_cancelled(g),
            forall|sid: i64|
                (#[trigger] old(self).active_handle(sid)) matches Some(g) ==> final(self).is_cancelled(g),
            forall|j: int| 0 <= j < hs@.len() ==> final(self).is_cancelled(#[trigger] hs@[j]),
            forall|s2: i64| final(self).activity_of(s2) == old(self).activity_of(s2),
            final(self).spec_next_handle() == old(self).spec_next_handle(),
    {
        let mut hs: Vec<u64> = Vec::new();
        while self.active.len() > 0
            invariant
                self.wf(),
                forall|g: u64| old(self).is_cancelled(g) ==> self.is_cancelled(g),
                forall|j: int|
                    0 <= j < old(self).active@.len() ==> self.active@.contains(
                        #[trigger] old(self).active@[j],
                    ) || self.cancelled@.contains(old(self).active@[j].1),
                forall|j: int| 0 <= j < hs@.len() ==> self.cancelled@.contains(#[trigger] hs@[j]),
                forall|s2: i64| self.activity_of(s2) == old(self).activity_of(s2),
                self.spec_next_handle() == old(self).spec_next_handle(),
            decreases self.active@.len(),
        {
            let ghost pre = self.active@;
            let ghost prehs = hs@;
            let entry = self.active.pop().unwrap();
            proof {
                assert(pre[pre.len() - 1] == entry);
                assert(self.active@ =~= pre.drop_last());
                assert(forall|j: int|
                    0 <= j < pre.len() - 1 ==> #[trigger] pre[j] == self.active@[j]);
            }
            let ghost oldc = self.cancelled@;
            self.cancelled.push(entry.1);
            hs.push(entry.1);
            proof {
                assert(forall|j: int|
                    0 <= j < self.active@.len() ==> #[trigger] self.active@[j] == pre[j]);
                assert(self.cancelled@.contains(entry.1)) by {
                    assert(self.cancelled@[self.cancelled@.len() - 1] == entry.1);
                }
                assert forall|g: u64| oldc.contains(g) implies self.cancelled@.contains(g) by {
                    let j = choose|j: int| 0 <= j < oldc.len() && oldc[j] == g;
                    assert(self.cancelled@[j] == g);
                }
                assert forall|j: int| 0 <= j < old(self).active@.len() implies self.active@.contains(
                    #[trigger] old(self).active@[j],
                ) || self.cancelled@.contains(old(self).active@[j].1) by {
                    let e = old(self).active@[j];
                    if !oldc.contains(e.1) {
                        // At loop entry the entry was still registered.
                        assert(pre.contains(e));
                        let i2 = choose|i2: int| 0 <= i2 < pre.len() && pre[i2] == e;
                        if i2 < pre.len() - 1 {
                            assert(self.active@[i2] == e);
                            assert(self.active@.contains(e));
                        } else {
                            assert(e == entry);
                        }
                    }
                }
                assert forall|j: int| 0 <= j < hs@.len() implies self.cancelled@.contains(
                    #[trigger] hs@[j],
                ) by {
                    if j < prehs.len() {
                        assert(hs@[j] == prehs[j]);
                        assert(oldc.contains(prehs[j]));
                    } else {
                        assert(hs@[j] == entry.1);
                    }
                }
            }
        }
        proof {
            assert forall|sid: i64| self.active_handle(sid) is None by {
                assert(self.active@.len() == 0);
            }
            assert forall|sid: i64| old(self).active_handle(sid) is Some implies self.is_cancelled(
                old(self).active_handle(sid)->Some_0,
            ) by {
                let j = lemma_lookup_some_index(old(self).active@, sid);
                assert(self.active@.contains(old(self).active@[j]) || self.cancelled@.contains(
                    old(self).active@[j].1,
                ));
            }
        }
        hs
    }

    /// Start a chain for the session: touch its activity, cancel any chain
    /// already registered for it, and register a fresh handle. The handle of
    /// the superseded chain, if any, comes back cancelled and distinct from
    /// the fresh one.
    pub fn start_chain(&mut self, session_id: i64, now_ms: u64) -> (r: (u64, Option<u64>))
        requires
            old(self).wf(),
            old(self).spec_next_handle() < u64::MAX,
        ensures
            final(self).wf(),
            final(self).active_handle(session_id) == Some(r.0),
            !final(self).is_cancelled(r.0),
            r.1 == old(self).active_handle(session_id),
            r.1 matches Some(g) ==> final(self).is_cancelled(g) && g != r.0,
            forall|s2: i64|
                s2 != session_id ==> final(self).active_handle(s2) == old(self).active_handle(s2),
            forall|g: u64| old(self).is_cancelled(g) ==> final(self).is_cancelled(g),
            final(self).activity_of(session_id) matches Some(a) && a.last_interaction == now_ms
                && a.last_proactive == match old(self).activity_of(session_id) {
                Some(prev) => prev.last_proactive,
                None => None,
            },
            forall|s2: i64|
                s2 != session_id ==> final(self).activity_of(s2) == old(self).activity_of(s2),
    {
        self.touch_session(session_id, now_ms);
        let superseded = self.cancel_session_behaviors(session_id);
        let h = self.next_handle;
        self.next_handle = self.next_handle + 1;
        let ghost pre = self.active@;
        proof {
            assert(forall|j: int| 0 <= j < pre.len() ==> (#[trigger] pre[j]).0 != session_id) by {
                if exists|j: int| 0 <= j < pre.len() && (#[trigger] pre[j]).0 == session_id {
                    let j = choose|j: int| 0 <= j < pre.len() && (#[trigger] pre[j]).0 == session_id;
                    lemma_lookup_present(pre, j);
                }
            }
        }
        self.active.push((session_id, h));
        proof {
            lemma_unique_push(pre, session_id, h);
            assert forall|k: i64| true implies #[trigger] assoc_lookup(self.active@, k) == if k
                == session_id {
                Some(h)
            } else {
                assoc_lookup(pre, k)
            } by {
                lemma_lookup_push(pre, session_id, h, k);
            }
            assert(!self.is_cancelled(h)) by {
                if self.cancelled@.contains(h) {
                    let j = choose|j: int|
                        0 <= j < self.cancelled@.len() && self.cancelled@[j] == h;
                    assert(self.cancelled@[j] < self.next_handle);
                }
            }
        }
        (h, superseded)
    }

    /// Unregister the session's chain, but only if it is still the one the
    /// given handle belongs to: a newer chain may already have replaced it.
    pub fn finish_chain(&mut self, session_id: i64, h: u64)
        requires
            old(self).wf(),
        ensures
            final(self).wf(),
            old(self).active_handle(session_id) == Some(h) ==> final(self).active_handle(session_id)
                is None,
            old(self).active_handle(session_id) != Some(h) ==> final(self).active_handle(session_id)
                == old(self).active_handle(session_id),
            forall|s2: i64|
                s2 != session_id ==> final(self).active_handle(s2) == old(self).active_handle(s2),
            forall|g: u64| final(self).is_cancelled(g) == old(self).is_cancelled(g),
            forall|s2: i64| final(self).activity_of(s2) == old(self).activity_of(s2),
            final(self).spec_next_handle() == old(self).spec_next_handle(),
    {
        match find_key(&self.active, session_id) {
            Some(i) => {
                proof {
                    lemma_lookup_present(self.active@, i as int);
                }
                if self.active[i].1 == h {
                    let ghost pre = self.active@;
                    self.active.remove(i);
                    proof {
                        lemma_unique_remove(pre, i as int);
                        assert forall|k: i64| true implies #[trigger] assoc_lookup(
                            self.active@,
                            k,
                        ) == if k == session_id {
                            None::<u64>
                        } else {
                            assoc_lookup(pre, k)
                        } by {
                            lemma_lookup_remove(pre, i as int, k);
                        }
                    }
                }
            },
            None => {
                proof {
                    lemma_lookup_absent(self.active@, session_id);
                }
            },
        }
    }
}

} // verus!
