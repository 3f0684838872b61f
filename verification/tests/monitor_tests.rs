use chat_pacing::analyzer::StateAnalyzer;
use chat_pacing::context::{Mood, SessionContext};
use chat_pacing::engine::BehaviorEngine;
use chat_pacing::models::{augment_query, parse_id, SearchProvider};
use chat_pacing::monitor::{
    build_proactive_prompt, evaluate_idle_session, proactive_due, tenths_label,
};
use chat_pacing::scheduler::SessionActivity;
use chat_pacing::settings::{ImmersiveSettings, ProactiveConfig};
use chat_pacing::text::trim_str;

fn bare_context() -> SessionContext {
    SessionContext {
        session_id: 1,
        contact_id: 1,
        mood: None,
        busy_level: None,
        interest_level: None,
    }
}

const MINUTE_MS: u64 = 60000;

#[test]
fn idle_below_threshold_never_triggers() {
    let activity = SessionActivity { last_interaction: 0, last_proactive: None };
    // Idle for 9 minutes against a 10-minute threshold.
    assert!(!proactive_due(&activity, 9 * MINUTE_MS, 10, 30));
    // Exactly at the threshold it becomes due.
    assert!(proactive_due(&activity, 10 * MINUTE_MS, 10, 30));
}

#[test]
fn cooldown_blocks_triggering() {
    // Idle far past the threshold, but the last proactive message was 20
    // minutes ago against a 30-minute cooldown.
    let activity = SessionActivity {
        last_interaction: 0,
        last_proactive: Some(100 * MINUTE_MS),
    };
    assert!(!proactive_due(&activity, 120 * MINUTE_MS, 10, 30));
    // Once the cooldown has passed, it is due again.
    assert!(proactive_due(&activity, 131 * MINUTE_MS, 10, 30));
}

#[test]
fn disabled_settings_never_evaluate_to_a_trigger() {
    let settings = ImmersiveSettings::default();
    assert!(!settings.enabled);
    let engine = BehaviorEngine::new(settings);
    let activity = SessionActivity { last_interaction: 0, last_proactive: None };
    let context = bare_context();
    for _ in 0..100 {
        assert!(!evaluate_idle_session(&engine, &activity, &context, 1000 * MINUTE_MS));
    }
}

#[test]
fn unconfigured_proactive_never_evaluates_to_a_trigger() {
    let mut settings = ImmersiveSettings::default();
    settings.enabled = true;
    settings.behaviors.proactive_initiation = None;
    let engine = BehaviorEngine::new(settings);
    let activity = SessionActivity { last_interaction: 0, last_proactive: None };
    let context = bare_context();
    for _ in 0..100 {
        assert!(!evaluate_idle_session(&engine, &activity, &context, 1000 * MINUTE_MS));
    }
}

#[test]
fn certain_success_triggers_once_idle_enough() {
    let mut settings = ImmersiveSettings::default();
    settings.enabled = true;
    settings.behaviors.proactive_initiation = Some(ProactiveConfig {
        idle_threshold_range: (10, 10),
        success_rate: chat_pacing::RATE_ONE,
        cooldown_range: (30, 30),
    });
    let engine = BehaviorEngine::new(settings);
    let context = bare_context();
    // Interest is absent, so the success probability is nudged up from 1.0
    // and stays 1.0; the threshold stays 10 minutes.
    let idle = SessionActivity { last_interaction: 0, last_proactive: None };
    assert!(evaluate_idle_session(&engine, &idle, &context, 11 * MINUTE_MS));
    let fresh = SessionActivity {
        last_interaction: 10 * MINUTE_MS,
        last_proactive: None,
    };
    assert!(!evaluate_idle_session(&engine, &fresh, &context, 11 * MINUTE_MS));
}

#[test]
fn tenths_labels_round_to_the_nearest_tenth() {
    assert_eq!(tenths_label(0), "0.0");
    assert_eq!(tenths_label(499), "0.0");
    assert_eq!(tenths_label(500), "0.1");
    assert_eq!(tenths_label(5000), "0.5");
    assert_eq!(tenths_label(9499), "0.9");
    assert_eq!(tenths_label(9500), "1.0");
    assert_eq!(tenths_label(10000), "1.0");
}

#[test]
fn proactive_prompt_injects_the_character_state() {
    let context = SessionContext {
        session_id: 1,
        contact_id: 1,
        mood: Some(Mood::Happy),
        busy_level: Some(2000),
        interest_level: None,
    };
    let prompt = build_proactive_prompt("打个招呼", &context);
    assert_eq!(
        prompt,
        "打个招呼\n\n当前角色状态:\n- 心情: happy\n- 忙碌度: 0.2\n- 兴趣度: 0.5\n\n请直接输出你想说的内容，保持角色人设，语气自然。"
    );
}

#[test]
fn analyzer_decides_and_infers_from_the_message_count() {
    let analyzer = StateAnalyzer::new();
    assert!(!analyzer.should_analyze(true, 25, 20));
    assert!(!analyzer.should_analyze(false, 19, 20));
    assert!(analyzer.should_analyze(false, 20, 20));

    let r = analyzer.analyze_state(1, 1, 3);
    assert_eq!(r.mood, Mood::Happy);
    assert_eq!(r.busy_level, 1500);
    assert_eq!(r.interest_level, 5000);
    let r = analyzer.analyze_state(1, 1, 8);
    assert_eq!(r.mood, Mood::Neutral);
    let r = analyzer.analyze_state(1, 1, 30);
    assert_eq!(r.mood, Mood::Busy);
    assert_eq!(r.busy_level, 10000);
}

#[test]
fn trim_removes_only_leading_and_trailing_whitespace() {
    assert_eq!(trim_str("  你好 世界\t\n"), "你好 世界");
    assert_eq!(trim_str("no-trim"), "no-trim");
    assert_eq!(trim_str(" \t\r\n"), "");
    assert_eq!(trim_str(""), "");
}

#[test]
fn parse_id_accepts_what_a_signed_64_bit_parse_accepts() {
    assert_eq!(parse_id("0"), Ok(0));
    assert_eq!(parse_id("42"), Ok(42));
    assert_eq!(parse_id("+42"), Ok(42));
    assert_eq!(parse_id("-42"), Ok(-42));
    assert_eq!(parse_id("9223372036854775807"), Ok(i64::MAX));
    assert_eq!(parse_id("-9223372036854775808"), Ok(i64::MIN));
    assert!(parse_id("9223372036854775808").is_err());
    assert!(parse_id("-9223372036854775809").is_err());
    assert!(parse_id("").is_err());
    assert!(parse_id("-").is_err());
    assert!(parse_id("+").is_err());
    assert!(parse_id("12a").is_err());
    assert!(parse_id(" 12").is_err());
    assert!(parse_id("１２").is_err());
}

#[test]
fn augment_query_appends_the_site_filter() {
    assert_eq!(augment_query("rust verus", SearchProvider::All), "rust verus");
    assert_eq!(
        augment_query("rust verus", SearchProvider::Wiki),
        "rust verus (site:wikipedia.org OR site:baike.baidu.com)"
    );
    assert!(augment_query("rust", SearchProvider::Developer).contains("site:github.com"));
    assert!(augment_query("rust", SearchProvider::Academic).contains("site:arxiv.org"));
}
