//! The action vocabulary of the behavior engine and the spec predicates that
//! describe the shapes of the chains it produces.

use vstd::prelude::*;
use crate::text::valid_segmentation;
use crate::RATE_ONE;

verus! {

/// One step of a simulated reply. A chain is an ordered, non-empty sequence
/// of these; the scheduler interprets them strictly in order.
#[derive(Clone, Debug, PartialEq)]
pub enum BehaviorAction {
    /// Pause for this many milliseconds while showing a typing indicator.
    Wait(u32),
    /// Commit and broadcast one message.
    Speak(String),
    /// Undo a previous `Speak`: a message id, or 0 for the most recent one
    /// spoken by this chain.
    Retract(i64),
    /// Terminal no-op: read without replying.
    Idle,
    /// Suspend for this many milliseconds, then re-invoke the decision engine
    /// on the recorded original message.
    DelayedDecision(u32, String),
}

/// `a` speaks exactly the text `m`.
pub open spec fn is_speak(a: BehaviorAction, m: Seq<char>) -> bool {
    a matches BehaviorAction::Speak(t) && t@ == m
}

/// The chain is a plain echo of the message: `[Speak(m)]`.
pub open spec fn chain_is_echo(chain: Seq<BehaviorAction>, m: Seq<char>) -> bool {
    chain.len() == 1 && is_speak(chain[0], m)
}

/// The chain reads without replying: `[Idle]`.
pub open spec fn chain_is_idle(chain: Seq<BehaviorAction>) -> bool {
    chain.len() == 1 && chain[0] is Idle
}

/// The chain defers the decision: `[DelayedDecision(d, m)]` with `d` inside
/// the configured delay range.
pub open spec fn chain_is_delayed(chain: Seq<BehaviorAction>, m: Seq<char>, lo: u32, hi: u32) -> bool {
    &&& chain.len() == 1
    &&& chain[0] matches BehaviorAction::DelayedDecision(d, orig) && orig@ == m && lo <= d <= hi
}

/// The outcome of the ignore branch: a deferred decision when an idle-delay
/// configuration exists, a plain `[Idle]` otherwise.
pub open spec fn ignore_outcome(
    chain: Seq<BehaviorAction>,
    m: Seq<char>,
    b: crate::settings::BehaviorToggles,
) -> bool {
    match b.idle_delay_config {
        Some(c) => chain_is_delayed(chain, m, c.delay_range_ms.0, c.delay_range_ms.1),
        None => chain_is_idle(chain),
    }
}

/// The characters a flawed message may substitute for an original one.
pub open spec fn similar_chars() -> Seq<char> {
    seq!['的', '地', '得', '在', '再', '做', '作']
}

/// `t` is `m` with the character at `pos` duplicated.
pub open spec fn typo_dup_at(t: Seq<char>, m: Seq<char>, pos: int) -> bool {
    t == m.subrange(0, pos + 1) + m.subrange(pos, m.len() as int)
}

/// `t` is `m` with the character at `pos` replaced by the `k`-th similar
/// character.
pub open spec fn typo_subst_at(t: Seq<char>, m: Seq<char>, pos: int, k: int) -> bool {
    t == m.subrange(0, pos) + seq![similar_chars()[k]] + m.subrange(pos + 1, m.len() as int)
}

/// `t` is `m` with the character at `pos` replaced by some similar character.
pub open spec fn typo_subst_with(t: Seq<char>, m: Seq<char>, pos: int) -> bool {
    exists|k: int| 0 <= k < similar_chars().len() && #[trigger] typo_subst_at(t, m, pos, k)
}

/// `t` is `m` with one interior character duplicated or replaced by a
/// similar character; messages shorter than 3 characters stay untouched.
pub open spec fn is_typo_of(t: Seq<char>, m: Seq<char>) -> bool {
    if m.len() < 3 {
        t == m
    } else {
        exists|pos: int|
            #![trigger typo_dup_at(t, m, pos)]
            #![trigger typo_subst_with(t, m, pos)]
            1 <= pos < m.len() - 1 && (typo_dup_at(t, m, pos) || typo_subst_with(t, m, pos))
    }
}

/// The fixed six-step retract-and-fix chain:
/// `[Wait(800), Speak(flawed), Wait(fix_delay), Retract(last), Wait(500),
/// Speak(original)]`, whose final payload is the untouched message.
pub open spec fn typo_chain(chain: Seq<BehaviorAction>, m: Seq<char>, fix_delay: u32) -> bool {
    &&& chain.len() == 6
    &&& chain[0] == BehaviorAction::Wait(800u32)
    &&& chain[1] matches BehaviorAction::Speak(t) && is_typo_of(t@, m)
    &&& chain[2] == BehaviorAction::Wait(fix_delay)
    &&& chain[3] == BehaviorAction::Retract(0i64)
    &&& chain[4] == BehaviorAction::Wait(500u32)
    &&& is_speak(chain[5], m)
}

/// `w` is the primary delay `d` scaled by the factor `f` (1/10000 units).
pub open spec fn scaled_wait(w: int, d: u32, f: int) -> bool {
    w == (d as int) * f / (RATE_ONE as int)
}

/// A delay inserted between two segments: the primary delay scaled by a
/// factor sampled from the configured range.
pub open spec fn is_segment_wait(w: u32, d: u32, fmin: u32, fmax: u32) -> bool {
    exists|f: int| fmin <= f <= fmax && #[trigger] scaled_wait(w as int, d, f)
}

/// The normal reply shape for segments `segs` and primary delay `d`:
/// `[Wait(d), Speak(segs[0]), Wait(d*f_1), Speak(segs[1]), ..,
/// Speak(segs[n-1])]` with a scaled `Wait` between consecutive `Speak`s only.
pub open spec fn normal_chain_with(
    chain: Seq<BehaviorAction>,
    segs: Seq<Seq<char>>,
    d: u32,
    fmin: u32,
    fmax: u32,
) -> bool {
    &&& segs.len() >= 1
    &&& chain.len() == 2 * segs.len()
    &&& forall|j: int|
        0 <= j < chain.len() ==> ((#[trigger] chain[j]) is Wait || chain[j] is Speak)
    &&& chain[0] == BehaviorAction::Wait(d)
    &&& forall|j: int| 0 <= j < segs.len() ==> is_speak(#[trigger] chain[2 * j + 1], segs[j])
    &&& forall|j: int|
        0 <= j < segs.len() - 1 ==> ((#[trigger] chain[2 * j + 2]) matches BehaviorAction::Wait(w)
            && is_segment_wait(w, d, fmin, fmax))
}

/// The outcome of the normal reply branch: some valid segmentation of the
/// message, delivered with a primary delay inside the reply-delay bounds.
pub open spec fn normal_outcome(
    chain: Seq<BehaviorAction>,
    m: Seq<char>,
    b: crate::settings::BehaviorToggles,
) -> bool {
    exists|segs: Seq<Seq<char>>, d: u32|
        {
            &&& valid_segmentation(m, segs, b.spec_max_segments())
            &&& b.spec_reply_delay().0 <= d <= b.spec_reply_delay().1
            &&& normal_chain_with(
                chain,
                segs,
                d,
                b.segment_delay_factor.0,
                b.segment_delay_factor.1,
            )
        }
}

/// The chains a deferred decision can come back with — silence or a normal
/// reply — contain no further deferral, so a chain can grow only by replies.
pub proof fn lemma_reply_shapes_have_no_deferral(
    chain: Seq<BehaviorAction>,
    m: Seq<char>,
    b: crate::settings::BehaviorToggles,
)
    requires
        chain_is_idle(chain) || normal_outcome(chain, m, b),
    ensures
        forall|j: int| 0 <= j < chain.len() ==> !((#[trigger] chain[j]) is DelayedDecision),
{
    if !chain_is_idle(chain) {
        let (segs, d) = choose|segs: Seq<Seq<char>>, d: u32|
            {
                &&& crate::text::valid_segmentation(m, segs, b.spec_max_segments())
                &&& b.spec_reply_delay().0 <= d <= b.spec_reply_delay().1
                &&& normal_chain_with(
                    chain,
                    segs,
                    d,
                    b.segment_delay_factor.0,
                    b.segment_delay_factor.1,
                )
            };
        assert(normal_chain_with(chain, segs, d, b.segment_delay_factor.0, b.segment_delay_factor.1));
    }
}

} // verus!
