//! The chain interpreter, as an explicit state machine.
//!
//! A `ChainRun` holds the actions still to execute. The surrounding
//! application drives it: it feeds one event in, receives one command back,
//! performs the side effect the command names (sleep, persist, delete), and
//! reports the outcome as the next event. Cancellation is cooperative: it is
//! observed at the events that carry a `cancelled` flag, and once the run has
//! stopped, nothing is executed any more.
//!
//! A deferred decision re-invokes the decision engine from inside `step`;
//! the resulting sub-chain is spliced onto the front of the queue, as an
//! explicit queue rather than recursion, so adversarial configurations
//! cannot grow the call stack.

use vstd::prelude::*;
use crate::actions::BehaviorAction;
use crate::context::SessionContext;
use crate::engine::{decide_after_delay_post, BehaviorEngine};
use crate::settings::ImmersiveSettings;
use crate::MAX_MESSAGE_CHARS;

verus! {

/// Where the run stands in its protocol with the application.
#[derive(Clone, Debug, PartialEq)]
pub enum ExecPhase {
    /// Ready to take the next action from the queue; expects `Tick`.
    Ready,
    /// A typing pause is in flight; expects `WaitDone`.
    Waiting,
    /// A message is being persisted and broadcast; expects `Spoken`.
    Speaking,
    /// The message with this id is being deleted; expects `Retracted`.
    Retracting(i64),
    /// A deferred decision on this original message is pending; expects
    /// `DelayDone`.
    Delaying(String),
    /// The run is over: finished, cancelled, or aborted by an error.
    Stopped,
}

/// What the application reports back to the run.
#[derive(Clone, Copy, Debug, PartialEq)]
pub enum ExecEvent {
    /// Ready to process the next action; `cancelled` is the cancellation
    /// check made before it.
    Tick { cancelled: bool },
    /// The typing pause ended, or was interrupted by cancellation.
    WaitDone { cancelled: bool },
    /// Persisting the spoken message yielded this id; `None` means the
    /// persistence layer failed.
    Spoken { message_id: Option<i64> },
    /// Deleting the retracted message succeeded or failed.
    Retracted { ok: bool },
    /// The deferred-decision pause ended, or was interrupted by cancellation.
    DelayDone { cancelled: bool },
}

/// What the application must do next.
#[derive(Clone, Debug, PartialEq)]
pub enum ExecCommand {
    /// Show the typing indicator and sleep, racing cancellation; report
    /// `WaitDone`.
    Wait { duration_ms: u32 },
    /// Clear the typing indicator, persist this text as the assistant's
    /// message and broadcast it; report `Spoken`.
    Persist { content: String },
    /// Delete this message and broadcast the retraction; report `Retracted`.
    Delete { message_id: i64 },
    /// Sleep before the deferred decision, racing cancellation; report
    /// `DelayDone`.
    Delay { duration_ms: u32 },
    /// Nothing external to do; report a fresh `Tick`.
    Proceed,
    /// The run is over; clear the typing indicator if asked, then stop
    /// driving this run.
    Stop { clear_typing: bool },
}

/// One chain being interpreted for a session.
pub struct ChainRun {
    /// The actions still to execute, next one last.
    pub stack: Vec<BehaviorAction>,
    pub phase: ExecPhase,
    /// The id of the most recent message this run spoke, the target of a
    /// `Retract(0)`.
    pub last_message_id: Option<i64>,
}

/// Every deferred-decision payload in the sequence is small enough for the
/// decision engine.
pub open spec fn payloads_bounded(chain: Seq<BehaviorAction>) -> bool {
    forall|j: int|
        0 <= j < chain.len() ==> ((#[trigger] chain[j]) matches BehaviorAction::DelayedDecision(
            _,
            o,
        ) ==> o@.len() <= MAX_MESSAGE_CHARS)
}

/// `post` is `pre` with the next action consumed and the phase changed.
pub open spec fn stepped(pre: ChainRun, post: ChainRun, phase: ExecPhase) -> bool {
    &&& post.stack@ == pre.stack@.drop_last()
    &&& post.phase == phase
    &&& post.last_message_id == pre.last_message_id
}

/// `post` is `pre` halted: the queue and the last-spoken id are kept, but the
/// phase is `Stopped`, so no further action of this run executes.
pub open spec fn halted(pre: ChainRun, post: ChainRun) -> bool {
    &&& post.stack@ == pre.stack@
    &&& post.phase is Stopped
    &&& post.last_message_id == pre.last_message_id
}

/// Reversal flips indices.
proof fn lemma_reverse_index<A>(s: Seq<A>)
    ensures
        s.reverse().len() == s.len(),
        forall|i: int| 0 <= i < s.len() ==> s.reverse()[i] == s[s.len() - 1 - i],
{
    if s.len() > 0 {
        assert(s.reverse() == Seq::new(s.len(), |i: int| s[s.len() - 1 - i]));
    }
}

/// `post` is `pre` with the sub-chain `sub` — one allowed outcome of
/// re-deciding on `orig` — spliced onto the front of the queue.
pub open spec fn splice_witness(
    pre: ChainRun,
    post: ChainRun,
    sub: Seq<BehaviorAction>,
    orig: Seq<char>,
    s: ImmersiveSettings,
    ctx: SessionContext,
) -> bool {
    &&& decide_after_delay_post(sub, orig, s, ctx)
    &&& post.stack@ == pre.stack@ + sub.reverse()
    &&& post.phase is Ready
    &&& post.last_message_id == pre.last_message_id
}

/// `post` is `pre` with some allowed re-decision on `orig` spliced in.
pub open spec fn spliced(
    pre: ChainRun,
    post: ChainRun,
    orig: Seq<char>,
    s: ImmersiveSettings,
    ctx: SessionContext,
) -> bool {
    exists|sub: Seq<BehaviorAction>| #[trigger] splice_witness(pre, post, sub, orig, s, ctx)
}

/// Whether the event carries a cancellation observation that fired.
pub open spec fn event_cancelled(event: ExecEvent) -> bool {
    ||| event matches ExecEvent::Tick { cancelled: true }
    ||| event matches ExecEvent::WaitDone { cancelled: true }
    ||| event matches ExecEvent::DelayDone { cancelled: true }
}

/// The full transition relation of the interpreter: given the phase of `pre`
/// and the event, it pins the next state and the command.
pub open spec fn step_rel(
    pre: ChainRun,
    event: ExecEvent,
    post: ChainRun,
    cmd: ExecCommand,
    s: ImmersiveSettings,
    ctx: SessionContext,
) -> bool {
    match pre.phase {
        ExecPhase::Stopped => post == pre && cmd == (ExecCommand::Stop { clear_typing: false }),
        ExecPhase::Ready => match event {
            ExecEvent::Tick { cancelled } => if cancelled {
                halted(pre, post) && cmd == (ExecCommand::Stop { clear_typing: true })
            } else if pre.stack@.len() == 0 {
                halted(pre, post) && cmd == (ExecCommand::Stop { clear_typing: true })
            } else {
                match pre.stack@.last() {
                    BehaviorAction::Wait(ms) => stepped(pre, post, ExecPhase::Waiting) && cmd == (
                        ExecCommand::Wait { duration_ms: ms }
                    ),
                    BehaviorAction::Speak(c) => stepped(pre, post, ExecPhase::Speaking) && cmd == (
                        ExecCommand::Persist { content: c }
                    ),
                    BehaviorAction::Retract(t) => if t == 0 {
                        match pre.last_message_id {
                            Some(id) => stepped(pre, post, ExecPhase::Retracting(id)) && cmd == (
                                ExecCommand::Delete { message_id: id }
                            ),
                            // Nothing to retract: the chain aborts.
                            None => stepped(pre, post, ExecPhase::Stopped) && cmd == (
                            ExecCommand::Stop { clear_typing: true }),
                        }
                    } else {
                        stepped(pre, post, ExecPhase::Retracting(t)) && cmd == (ExecCommand::Delete {
                            message_id: t,
                        })
                    },
                    BehaviorAction::Idle => stepped(pre, post, ExecPhase::Ready) && cmd
                        == ExecCommand::Proceed,
                    BehaviorAction::DelayedDecision(ms, orig) => stepped(
                        pre,
                        post,
                        ExecPhase::Delaying(orig),
                    ) && cmd == (ExecCommand::Delay { duration_ms: ms }),
                }
            },
            _ => false,
        },
        ExecPhase::Waiting => match event {
            ExecEvent::WaitDone { cancelled } => if cancelled {
                halted(pre, post) && cmd == (ExecCommand::Stop { clear_typing: true })
            } else {
                post.stack@ == pre.stack@ && post.phase is Ready && post.last_message_id
                    == pre.last_message_id && cmd == ExecCommand::Proceed
            },
            _ => false,
        },
        ExecPhase::Speaking => match event {
            ExecEvent::Spoken { message_id } => match message_id {
                Some(id) => post.stack@ == pre.stack@ && post.phase is Ready
                    && post.last_message_id == Some(id) && cmd == ExecCommand::Proceed,
                // Persistence failed: the rest of the chain is abandoned.
                None => halted(pre, post) && cmd == (ExecCommand::Stop { clear_typing: true }),
            },
            _ => false,
        },
        ExecPhase::Retracting(target) => match event {
            ExecEvent::Retracted { ok } => if ok {
                post.stack@ == pre.stack@ && post.phase is Ready && post.last_message_id == (
                if pre.last_message_id == Some(target) {
                    None
                } else {
                    pre.last_message_id
                }) && cmd == ExecCommand::Proceed
            } else {
                halted(pre, post) && cmd == (ExecCommand::Stop { clear_typing: true })
            },
            _ => false,
        },
        ExecPhase::Delaying(orig) => match event {
            ExecEvent::DelayDone { cancelled } => if cancelled {
                halted(pre, post) && cmd == (ExecCommand::Stop { clear_typing: true })
            } else {
                spliced(pre, post, orig@, s, ctx) && cmd == ExecCommand::Proceed
            },
            _ => false,
        },
    }
}

impl ChainRun {
    /// The event each phase waits for; a stopped run takes anything and
    /// answers `Stop`.
    pub open spec fn accepts(self, event: ExecEvent) -> bool {
        match self.phase {
            ExecPhase::Ready => event matches ExecEvent::Tick { .. },
            ExecPhase::Waiting => event matches ExecEvent::WaitDone { .. },
            ExecPhase::Speaking => event matches ExecEvent::Spoken { .. },
            ExecPhase::Retracting(_) => event matches ExecEvent::Retracted { .. },
            ExecPhase::Delaying(_) => event matches ExecEvent::DelayDone { .. },
            ExecPhase::Stopped => true,
        }
    }

    /// Validity: deferred-decision payloads, queued or in flight, are small
    /// enough for the decision engine.
    pub open spec fn wf(self) -> bool {
        &&& payloads_bounded(self.stack@)
        &&& (self.phase matches ExecPhase::Delaying(o) ==> o@.len() <= MAX_MESSAGE_CHARS)
    }

    /// The actions still to execute, in execution order.
    pub open spec fn spec_queue(self) -> Seq<BehaviorAction> {
        self.stack@.reverse()
    }

    /// Start interpreting a chain.
    pub fn new(chain: Vec<BehaviorAction>) -> (r: Self)
        requires
            payloads_bounded(chain@),
        ensures
            r.wf(),
            r.spec_queue() == chain@,
            r.phase is Ready,
            r.last_message_id is None,
    {
        let ghost chain0 = chain@;
        let mut rest = chain;
        let mut stack: Vec<BehaviorAction> = Vec::new();
        while rest.len() > 0
            invariant
                rest@.len() + stack@.len() == chain0.len(),
                forall|j: int| 0 <= j < rest@.len() ==> rest@[j] == chain0[j],
                forall|j: int|
                    0 <= j < stack@.len() ==> stack@[j] == chain0[chain0.len() - 1 - j],
            decreases rest@.len(),
        {
            let a = rest.pop().unwrap();
            stack.push(a);
        }
        let r = ChainRun { stack, phase: ExecPhase::Ready, last_message_id: None };
        proof {
            lemma_reverse_index(r.stack@);
            assert(r.spec_queue() =~= chain0);
            assert(payloads_bounded(r.stack@)) by {
                assert forall|j: int| 0 <= j < r.stack@.len() implies ((#[trigger] r.stack@[j]) matches
                    BehaviorAction::DelayedDecision(_, o) ==> o@.len() <= MAX_MESSAGE_CHARS) by {
                    assert(r.stack@[j] == chain0[chain0.len() - 1 - j]);
                }
            }
        }
        r
    }

    /// Drive the run one step: consume the event, update the state, and say
    /// what the application must do next. Once a cancellation observation
    /// fires, the run halts and no further `Persist` or `Delete` is issued.
    pub fn step(
        &mut self,
        event: ExecEvent,
        engine: &BehaviorEngine,
        context: &SessionContext,
    ) -> (cmd: ExecCommand)
        requires
            old(self).wf(),
            engine.wf(),
            context.wf(),
        ensures
            final(self).wf(),
            old(self).accepts(event) ==> step_rel(
                *old(self),
                event,
                *final(self),
                cmd,
                engine.spec_settings(),
                *context,
            ),
            // An event the phase does not expect is answered with a bare
            // stop and changes nothing.
            !old(self).accepts(event) ==> cmd == (ExecCommand::Stop { clear_typing: false })
                && *final(self) == *old(self),
            old(self).phase is Stopped ==> *final(self) == *old(self) && cmd == (ExecCommand::Stop {
                clear_typing: false,
            }),
            event_cancelled(event) && old(self).accepts(event) ==> final(self).phase is Stopped,
            cmd matches ExecCommand::Persist { .. } ==> old(self).phase is Ready && event == (
            ExecEvent::Tick { cancelled: false }),
            cmd matches ExecCommand::Delete { .. } ==> old(self).phase is Ready && event == (
            ExecEvent::Tick { cancelled: false }),
    {
        match self.phase {
            ExecPhase::Stopped => ExecCommand::Stop { clear_typing: false },
            ExecPhase::Ready => match event {
                ExecEvent::Tick { cancelled } => {
                    if cancelled {
                        self.phase = ExecPhase::Stopped;
                        ExecCommand::Stop { clear_typing: true }
                    } else {
                        match self.stack.pop() {
                            None => {
                                self.phase = ExecPhase::Stopped;
                                ExecCommand::Stop { clear_typing: true }
                            },
                            Some(BehaviorAction::Wait(ms)) => {
                                self.phase = ExecPhase::Waiting;
                                ExecCommand::Wait { duration_ms: ms }
                            },
                            Some(BehaviorAction::Speak(c)) => {
                                self.phase = ExecPhase::Speaking;
                                ExecCommand::Persist { content: c }
                            },
                            Some(BehaviorAction::Retract(t)) => {
                                if t == 0 {
                                    match self.last_message_id {
                                        Some(id) => {
                                            self.phase = ExecPhase::Retracting(id);
                                            ExecCommand::Delete { message_id: id }
                                        },
                                        None => {
                                            self.phase = ExecPhase::Stopped;
                                            ExecCommand::Stop { clear_typing: true }
                                        },
                                    }
                                } else {
                                    self.phase = ExecPhase::Retracting(t);
                                    ExecCommand::Delete { message_id: t }
                                }
                            },
                            Some(BehaviorAction::Idle) => {
                                self.phase = ExecPhase::Ready;
                                ExecCommand::Proceed
                            },
                            Some(BehaviorAction::DelayedDecision(ms, orig)) => {
                                self.phase = ExecPhase::Delaying(orig);
                                ExecCommand::Delay { duration_ms: ms }
                            },
                        }
                    }
                },
                _ => ExecCommand::Stop { clear_typing: false },
            },
            ExecPhase::Waiting => match event {
                ExecEvent::WaitDone { cancelled } => {
                    if cancelled {
                        self.phase = ExecPhase::Stopped;
                        ExecCommand::Stop { clear_typing: true }
                    } else {
                        self.phase = ExecPhase::Ready;
                        ExecCommand::Proceed
                    }
                },
                _ => ExecCommand::Stop { clear_typing: false },
            },
            ExecPhase::Speaking => match event {
                ExecEvent::Spoken { message_id } => match message_id {
                    Some(id) => {
                        self.last_message_id = Some(id);
                        self.phase = ExecPhase::Ready;
                        ExecCommand::Proceed
                    },
                    None => {
                        self.phase = ExecPhase::Stopped;
                        ExecCommand::Stop { clear_typing: true }
                    },
                },
                _ => ExecCommand::Stop { clear_typing: false },
            },
            ExecPhase::Retracting(target) => match event {
                ExecEvent::Retracted { ok } => {
                    if ok {
                        let was_last = match self.last_message_id {
                            Some(id) => id == target,
                            None => false,
                        };
                        if was_last {
                            self.last_message_id = None;
                        }
                        self.phase = ExecPhase::Ready;
                        ExecCommand::Proceed
                    } else {
                        self.phase = ExecPhase::Stopped;
                        ExecCommand::Stop { clear_typing: true }
                    }
                },
                _ => ExecCommand::Stop { clear_typing: false },
            },
            ExecPhase::Delaying(ref orig) => match event {
                ExecEvent::DelayDone { cancelled } => {
                    if cancelled {
                        self.phase = ExecPhase::Stopped;
                        ExecCommand::Stop { clear_typing: true }
                    } else {
                        let original = orig.clone();
                        let mut sub = engine.decide_after_delay(original.as_str(), context);
                        let ghost sub0 = sub@;
                        let ghost pre_stack = self.stack@;
                        while sub.len() > 0
                            invariant
                                self.phase == old(self).phase,
                                self.last_message_id == old(self).last_message_id,
                                sub@.len() <= sub0.len(),
                                self.stack@.len() == pre_stack.len() + sub0.len() - sub@.len(),
                                forall|j: int| 0 <= j < sub@.len() ==> sub@[j] == sub0[j],
                                forall|j: int|
                                    0 <= j < pre_stack.len() ==> self.stack@[j] == pre_stack[j],
                                forall|j: int|
                                    pre_stack.len() <= j < self.stack@.len()
                                        ==> #[trigger] self.stack@[j] == sub0[sub0.len() - 1 - (j
                                        - pre_stack.len())],
                            decreases sub@.len(),
                        {
                            let a = sub.pop().unwrap();
                            self.stack.push(a);
                        }
                        self.phase = ExecPhase::Ready;
                        proof {
                            lemma_reverse_index(sub0);
                            assert(self.stack@ =~= pre_stack + sub0.reverse());
                            assert(old(self).phase->Delaying_0@ == original@);
                            assert(splice_witness(
                                *old(self),
                                *self,
                                sub0,
                                original@,
                                engine.spec_settings(),
                                *context,
                            ));
                            assert(spliced(
                                *old(self),
                                *self,
                                original@,
                                engine.spec_settings(),
                                *context,
                            ));
                            assert(payloads_bounded(self.stack@)) by {
                                crate::actions::lemma_reply_shapes_have_no_deferral(
                                    sub0,
                                    original@,
                                    engine.spec_settings().behaviors,
                                );
                                assert forall|j: int| 0 <= j < self.stack@.len() implies ((
                                #[trigger] self.stack@[j]) matches BehaviorAction::DelayedDecision(
                                    _,
                                    o,
                                ) ==> o@.len() <= MAX_MESSAGE_CHARS) by {
                                    if j < pre_stack.len() {
                                        assert(self.stack@[j] == pre_stack[j]);
                                    } else {
                                        assert(self.stack@[j] == sub0.reverse()[j
                                            - pre_stack.len()]);
                                        assert(sub0.reverse()[j - pre_stack.len()] == sub0[sub0.len()
                                            - 1 - (j - pre_stack.len())]);
                                    }
                                }
                            }
                        }
                        ExecCommand::Proceed
                    }
                },
                _ => ExecCommand::Stop { clear_typing: false },
            },
        }
    }
}

} // verus!
