//! The idle monitor's decision logic: when a quiet session earns a proactive
//! message, and the prompt handed to the AI backend when it does.
//!
//! The surrounding application runs the periodic sweep; per session it hands
//! this module the tracked activity, the context, and the clock, and only
//! when `evaluate_idle_session` says so does it fetch history and call the
//! backend.

use vstd::prelude::*;
use vstd::string::StringExecFns;
use crate::context::{Mood, SessionContext};
use crate::engine::{proactive_scaled_threshold, proactive_success_rate, spec_proactive_config, BehaviorEngine};
use crate::models::Message;
use crate::rng::roll;
use crate::scheduler::SessionActivity;
use crate::RATE_ONE;

verus! {

/// Milliseconds elapsed between two stamps; a clock that moved backwards
/// counts as no time passed.
pub open spec fn spec_elapsed(now_ms: u64, then_ms: u64) -> int {
    if now_ms >= then_ms {
        now_ms - then_ms
    } else {
        0
    }
}

/// The proactive gate: the session has been idle at least the threshold, and
/// the last proactive message (if any) lies outside the cooldown window.
/// Threshold and cooldown are minutes; activity stamps are milliseconds.
pub open spec fn proactive_due_spec(
    a: SessionActivity,
    now_ms: u64,
    idle_threshold_min: u32,
    cooldown_min: u32,
) -> bool {
    &&& spec_elapsed(now_ms, a.last_interaction) >= (idle_threshold_min as int) * 60000
    &&& (a.last_proactive matches Some(lp) ==> spec_elapsed(now_ms, lp) >= (cooldown_min as int)
        * 60000)
}

/// Check the proactive gate for a session.
pub fn proactive_due(
    activity: &SessionActivity,
    now_ms: u64,
    idle_threshold_min: u32,
    cooldown_min: u32,
) -> (r: bool)
    ensures
        r == proactive_due_spec(*activity, now_ms, idle_threshold_min, cooldown_min),
{
    let idle: u64 = if now_ms >= activity.last_interaction {
        now_ms - activity.last_interaction
    } else {
        0
    };
    if idle < idle_threshold_min as u64 * 60000 {
        return false;
    }
    match activity.last_proactive {
        Some(lp) => {
            let since: u64 = if now_ms >= lp {
                now_ms - lp
            } else {
                0
            };
            since >= cooldown_min as u64 * 60000
        },
        None => true,
    }
}

/// A session that has not yet been idle past the threshold never triggers.
pub proof fn lemma_idle_below_threshold_never_triggers(
    a: SessionActivity,
    now_ms: u64,
    idle_threshold_min: u32,
    cooldown_min: u32,
)
    requires
        spec_elapsed(now_ms, a.last_interaction) < (idle_threshold_min as int) * 60000,
    ensures
        !proactive_due_spec(a, now_ms, idle_threshold_min, cooldown_min),
{
}

/// A session still inside its cooldown window never triggers, however long
/// it has been idle.
pub proof fn lemma_cooldown_blocks_trigger(
    a: SessionActivity,
    now_ms: u64,
    idle_threshold_min: u32,
    cooldown_min: u32,
    lp: u64,
)
    requires
        a.last_proactive == Some(lp),
        spec_elapsed(now_ms, lp) < (cooldown_min as int) * 60000,
    ensures
        !proactive_due_spec(a, now_ms, idle_threshold_min, cooldown_min),
{
}

/// One sweep step for one session: derive the dynamic proactive parameters,
/// gate on idle duration and cooldown, and draw once against the success
/// probability. A trigger implies the session was idle at least the lower
/// bound of the scaled threshold (and at least 10 minutes), was outside the
/// configured cooldown, and had a positive success probability.
pub fn evaluate_idle_session(
    engine: &BehaviorEngine,
    activity: &SessionActivity,
    context: &SessionContext,
    now_ms: u64,
) -> (r: bool)
    requires
        engine.wf(),
        context.wf(),
    ensures
        !engine.spec_settings().enabled ==> !r,
        engine.spec_settings().behaviors.proactive_initiation is None ==> !r,
        ({
            let cfg = spec_proactive_config(engine.spec_settings().behaviors);
            let lo = proactive_scaled_threshold(cfg.idle_threshold_range.0, *context);
            &&& (r ==> spec_elapsed(now_ms, activity.last_interaction) >= vstd::math::max(lo, 10)
                * 60000)
            &&& (r ==> (activity.last_proactive matches Some(lp) ==> spec_elapsed(now_ms, lp)
                >= (cfg.cooldown_range.0 as int) * 60000))
            &&& (r ==> proactive_success_rate(engine.spec_settings().behaviors, *context) > 0)
        }),
        ({
            // Conversely, a trigger is owed when nothing is left to chance:
            // certain success, idle past every threshold the scaled range can
            // yield, and outside the longest configured cooldown.
            let cfg = spec_proactive_config(engine.spec_settings().behaviors);
            let lo = proactive_scaled_threshold(cfg.idle_threshold_range.0, *context);
            let hi = proactive_scaled_threshold(cfg.idle_threshold_range.1, *context);
            (engine.spec_settings().enabled && engine.spec_settings().behaviors.proactive_initiation
                is Some && proactive_success_rate(engine.spec_settings().behaviors, *context)
                >= RATE_ONE as int && spec_elapsed(now_ms, activity.last_interaction)
                >= vstd::math::max(vstd::math::max(lo, hi), 10) * 60000 && (
            activity.last_proactive matches Some(lp) ==> spec_elapsed(now_ms, lp)
                >= (cfg.cooldown_range.1 as int) * 60000)) ==> r
        }),
{
    if !engine.is_enabled() {
        return false;
    }
    if !engine.proactive_configured() {
        return false;
    }
    let (threshold, success, cooldown) = engine.get_proactive_parameters(context);
    if !proactive_due(activity, now_ms, threshold, cooldown) {
        return false;
    }
    roll(success)
}

/// The label the prompt uses for a mood; an unknown or unestimated mood
/// reads as neutral.
pub open spec fn spec_mood_label(m: Option<Mood>) -> Seq<char> {
    match m {
        Some(Mood::Happy) => "happy"@,
        Some(Mood::Busy) => "busy"@,
        Some(Mood::Tired) => "tired"@,
        Some(Mood::Annoyed) => "annoyed"@,
        _ => "neutral"@,
    }
}

/// The label for a mood.
pub fn mood_label(m: Option<Mood>) -> (r: &'static str)
    ensures
        r@ == spec_mood_label(m),
{
    match m {
        Some(Mood::Happy) => "happy",
        Some(Mood::Busy) => "busy",
        Some(Mood::Tired) => "tired",
        Some(Mood::Annoyed) => "annoyed",
        _ => "neutral",
    }
}

/// A level in units of 1/10000 rendered to its nearest tenth, "0.0" to
/// "1.0".
pub open spec fn spec_tenths_label(level: u32) -> Seq<char> {
    let t = (level + 500) / 1000;
    if t <= 0 {
        "0.0"@
    } else if t == 1 {
        "0.1"@
    } else if t == 2 {
        "0.2"@
    } else if t == 3 {
        "0.3"@
    } else if t == 4 {
        "0.4"@
    } else if t == 5 {
        "0.5"@
    } else if t == 6 {
        "0.6"@
    } else if t == 7 {
        "0.7"@
    } else if t == 8 {
        "0.8"@
    } else if t == 9 {
        "0.9"@
    } else {
        "1.0"@
    }
}

/// Render a level to its nearest tenth.
pub fn tenths_label(level: u32) -> (r: &'static str)
    requires
        level <= RATE_ONE,
    ensures
        r@ == spec_tenths_label(level),
{
    let t = (level + 500) / 1000;
    if t == 0 {
        "0.0"
    } else if t == 1 {
        "0.1"
    } else if t == 2 {
        "0.2"
    } else if t == 3 {
        "0.3"
    } else if t == 4 {
        "0.4"
    } else if t == 5 {
        "0.5"
    } else if t == 6 {
        "0.6"
    } else if t == 7 {
        "0.7"
    } else if t == 8 {
        "0.8"
    } else if t == 9 {
        "0.9"
    } else {
        "1.0"
    }
}

/// What the proactive system prompt says: the template, then the current
/// character state, then the closing instruction.
pub open spec fn spec_proactive_prompt(template: Seq<char>, ctx: SessionContext) -> Seq<char> {
    template + "\n\n当前角色状态:\n- 心情: "@ + spec_mood_label(ctx.mood) + "\n- 忙碌度: "@
        + spec_tenths_label(
        match ctx.busy_level {
            Some(b) => b,
            None => 5000u32,
        },
    ) + "\n- 兴趣度: "@ + spec_tenths_label(
        match ctx.interest_level {
            Some(i) => i,
            None => 5000u32,
        },
    ) + "\n\n请直接输出你想说的内容，保持角色人设，语气自然。"@
}

/// Build the system prompt for a proactive message: the template with the
/// session's mood, busyness and interest injected.
pub fn build_proactive_prompt(template: &str, context: &SessionContext) -> (r: String)
    requires
        context.wf(),
    ensures
        r@ == spec_proactive_prompt(template@, *context),
{
    let mut r = String::from_str(template);
    r.append("\n\n当前角色状态:\n- 心情: ");
    r.append(mood_label(context.mood));
    r.append("\n- 忙碌度: ");
    let busy = match context.busy_level {
        Some(b) => b,
        None => 5000,
    };
    r.append(tenths_label(busy));
    r.append("\n- 兴趣度: ");
    let interest = match context.interest_level {
        Some(i) => i,
        None => 5000,
    };
    r.append(tenths_label(interest));
    r.append("\n\n请直接输出你想说的内容，保持角色人设，语气自然。");
    r
}

/// Put the system prompt in front of the recent history, oldest first, as
/// the message list handed to the AI backend.
pub fn assemble_proactive_messages(system_content: String, history: Vec<Message>) -> (r: Vec<
    Message,
>)
    ensures
        r@.len() == history@.len() + 1,
        r@[0].role@ == "system"@,
        r@[0].content == system_content,
        forall|j: int| 0 <= j < history@.len() ==> r@[j + 1] == history@[j],
{
    let system = Message {
        id: None,
        role: String::from_str("system"),
        content: system_content,
        reasoning_content: None,
        file_metadata: None,
        search_metadata: None,
    };
    let mut r = history;
    r.insert(0, system);
    r
}

} // verus!
