//! The library's global guarantees, each proved from the contracts the
//! functions themselves carry.

use vstd::prelude::*;
use crate::actions::{
    chain_is_delayed, chain_is_echo, chain_is_idle, ignore_outcome, is_speak, normal_chain_with,
    BehaviorAction,
};
use crate::context::SessionContext;
use crate::engine::{decide_post, effective_ignore_rate};
use crate::executor::{event_cancelled, step_rel, ChainRun, ExecCommand, ExecEvent, ExecPhase};
use crate::settings::ImmersiveSettings;
use crate::text::valid_segmentation;
use crate::RATE_ONE;

verus! {

/// With the simulation off, every decision is the plain echo: one `Speak`
/// carrying the message untouched.
pub proof fn lemma_disabled_decision_is_echo(
    chain: Seq<BehaviorAction>,
    m: Seq<char>,
    s: ImmersiveSettings,
    ctx: SessionContext,
)
    requires
        !s.enabled,
        decide_post(chain, m, s, ctx),
    ensures
        chain_is_echo(chain, m),
{
}

/// Every `Wait` a decision produces lies within the configured reply-delay
/// bounds, provided retract-and-fix is off and splitting is off. (A
/// retract-and-fix chain carries fixed 800 ms and 500 ms pauses, and the
/// pause between two segments is the primary delay scaled down, so either
/// can fall below the configured minimum.)
pub proof fn lemma_waits_within_reply_delay(
    chain: Seq<BehaviorAction>,
    m: Seq<char>,
    s: ImmersiveSettings,
    ctx: SessionContext,
)
    requires
        s.enabled,
        s.behaviors.wf(),
        decide_post(chain, m, s, ctx),
        s.behaviors.typo_correction is None,
        s.behaviors.spec_max_segments() <= 1,
    ensures
        forall|j: int|
            0 <= j < chain.len() ==> ((#[trigger] chain[j]) matches BehaviorAction::Wait(d)
                ==> s.behaviors.spec_reply_delay().0 <= d <= s.behaviors.spec_reply_delay().1),
{
    let b = s.behaviors;
    if ignore_outcome(chain, m, b) {
        assert(forall|j: int|
            0 <= j < chain.len() ==> !((#[trigger] chain[j]) matches BehaviorAction::Wait(d)));
    } else {
        let (segs, d) = choose|segs: Seq<Seq<char>>, d: u32|
            {
                &&& valid_segmentation(m, segs, b.spec_max_segments())
                &&& b.spec_reply_delay().0 <= d <= b.spec_reply_delay().1
                &&& normal_chain_with(
                    chain,
                    segs,
                    d,
                    b.segment_delay_factor.0,
                    b.segment_delay_factor.1,
                )
            };
        assert(segs.len() == 1);
        assert(chain.len() == 2);
        assert(chain[0] == BehaviorAction::Wait(d));
        assert(is_speak(chain[2 * 0int + 1], segs[0]));
        assert(is_speak(chain[1], segs[0]));
        assert forall|j: int| 0 <= j < chain.len() && (#[trigger] chain[j]) is Wait implies (
        b.spec_reply_delay().0 <= chain[j]->Wait_0 <= b.spec_reply_delay().1) by {
            if j == 0 {
            } else {
                assert(chain[1] is Speak);
            }
        }
    }
}

/// With certain ignoring (adjusted probability 1), every decision is the
/// ignore outcome: `[Idle]` without an idle-delay configuration, one
/// deferred decision inside the configured delay range with one.
pub proof fn lemma_certain_ignore(
    chain: Seq<BehaviorAction>,
    m: Seq<char>,
    s: ImmersiveSettings,
    ctx: SessionContext,
)
    requires
        s.enabled,
        decide_post(chain, m, s, ctx),
        effective_ignore_rate(s.behaviors, ctx) >= RATE_ONE,
    ensures
        ignore_outcome(chain, m, s.behaviors),
        s.behaviors.idle_delay_config is None ==> chain_is_idle(chain),
        s.behaviors.idle_delay_config matches Some(c) ==> chain_is_delayed(
            chain,
            m,
            c.delay_range_ms.0,
            c.delay_range_ms.1,
        ),
{
}

/// The plain form of certain ignoring: a configured ignore probability of 1
/// with no busyness or interest estimate is not adjusted away.
pub proof fn lemma_full_ignore_rate_plain_context(
    chain: Seq<BehaviorAction>,
    m: Seq<char>,
    s: ImmersiveSettings,
    ctx: SessionContext,
)
    requires
        s.enabled,
        decide_post(chain, m, s, ctx),
        s.behaviors.ignore_rate == RATE_ONE,
        ctx.busy_level is None,
        ctx.interest_level is None,
    ensures
        s.behaviors.idle_delay_config is None ==> chain_is_idle(chain),
        s.behaviors.idle_delay_config matches Some(c) ==> chain_is_delayed(
            chain,
            m,
            c.delay_range_ms.0,
            c.delay_range_ms.1,
        ),
{
    assert(effective_ignore_rate(s.behaviors, ctx) == RATE_ONE);
    lemma_certain_ignore(chain, m, s, ctx);
}

/// With ignoring adjusted away and a certain retract-and-fix trigger, every
/// decision is the fixed six-step chain `[Wait, Speak, Wait, Retract, Wait,
/// Speak]` whose final payload is the untouched message.
pub proof fn lemma_certain_typo_correction(
    chain: Seq<BehaviorAction>,
    m: Seq<char>,
    s: ImmersiveSettings,
    ctx: SessionContext,
)
    requires
        s.enabled,
        decide_post(chain, m, s, ctx),
        effective_ignore_rate(s.behaviors, ctx) == 0,
        s.behaviors.typo_correction matches Some(t) && t.trigger_rate >= RATE_ONE,
    ensures
        crate::actions::typo_chain(chain, m, s.behaviors.spec_fix_delay()),
        chain.len() == 6,
        is_speak(chain[5], m),
{
}

/// Re-inserting the separators reproduces the message: the untrimmed chunks
/// behind the segments tile the message from its start, chunk by chunk, and
/// only whitespace follows the last chunk.
pub proof fn lemma_segmentation_reconstructs_message(
    m: Seq<char>,
    segs: Seq<Seq<char>>,
    cuts: Seq<int>,
)
    requires
        crate::text::is_chunked_segmentation(m, segs, cuts),
    ensures
        forall|k: int|
            0 <= k < segs.len() ==> m.subrange(0, #[trigger] cuts[k + 1]) == m.subrange(0, cuts[k])
                + m.subrange(cuts[k], cuts[k + 1]),
        m == m.subrange(0, cuts[segs.len() as int]) + m.subrange(
            cuts[segs.len() as int],
            m.len() as int,
        ),
        crate::text::spec_trim(m.subrange(cuts[segs.len() as int], m.len() as int)).len() == 0,
{
    assert forall|k: int| 0 <= k < segs.len() implies m.subrange(0, #[trigger] cuts[k + 1])
        == m.subrange(0, cuts[k]) + m.subrange(cuts[k], cuts[k + 1]) by {
        assert(m.subrange(0, cuts[k + 1]) =~= m.subrange(0, cuts[k]) + m.subrange(
            cuts[k],
            cuts[k + 1],
        ));
    }
    assert(m =~= m.subrange(0, cuts[segs.len() as int]) + m.subrange(
        cuts[segs.len() as int],
        m.len() as int,
    ));
}

/// Whenever a live run stops — finished, cancelled, or aborted by an error —
/// the stop command clears the typing indicator, so a chain always ends with
/// no pending typing signal.
pub proof fn lemma_stop_clears_typing(
    pre: ChainRun,
    event: ExecEvent,
    post: ChainRun,
    cmd: ExecCommand,
    s: ImmersiveSettings,
    ctx: SessionContext,
)
    requires
        step_rel(pre, event, post, cmd, s, ctx),
        !(pre.phase is Stopped),
        cmd matches ExecCommand::Stop { .. },
    ensures
        cmd == (ExecCommand::Stop { clear_typing: true }),
{
}

/// A run that observes cancellation stops at once: the state after the step
/// is `Stopped` and the command carries no side effect.
pub proof fn lemma_cancellation_stops_run(
    pre: ChainRun,
    event: ExecEvent,
    post: ChainRun,
    cmd: ExecCommand,
    s: ImmersiveSettings,
    ctx: SessionContext,
)
    requires
        step_rel(pre, event, post, cmd, s, ctx),
        event_cancelled(event),
    ensures
        post.phase is Stopped,
        !(cmd matches ExecCommand::Persist { .. }),
        !(cmd matches ExecCommand::Delete { .. }),
{
}

/// A stopped run stays stopped: every further step leaves it unchanged and
/// answers `Stop`, so no `Speak` or `Retract` of a superseded chain can
/// execute after its cancellation check.
pub proof fn lemma_stopped_run_stays_stopped(
    pre: ChainRun,
    event: ExecEvent,
    post: ChainRun,
    cmd: ExecCommand,
    s: ImmersiveSettings,
    ctx: SessionContext,
)
    requires
        step_rel(pre, event, post, cmd, s, ctx),
        pre.phase is Stopped,
    ensures
        post == pre,
        post.phase is Stopped,
        cmd == (ExecCommand::Stop { clear_typing: false }),
{
}

} // verus!
