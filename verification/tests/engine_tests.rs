use chat_pacing::actions::BehaviorAction;
use chat_pacing::context::{Mood, SessionContext};
use chat_pacing::engine::BehaviorEngine;
use chat_pacing::settings::{
    BehaviorToggles, IdleDelayConfig, ImmersiveSettings, ProactiveConfig, TypoConfig,
};
use chat_pacing::RATE_ONE;

fn bare_context() -> SessionContext {
    SessionContext {
        session_id: 1,
        contact_id: 1,
        mood: None,
        busy_level: None,
        interest_level: None,
    }
}

fn enabled_settings() -> ImmersiveSettings {
    let mut s = ImmersiveSettings::default();
    s.enabled = true;
    s
}

#[test]
fn test_basic_delay() {
    let settings = ImmersiveSettings::default();
    let engine = BehaviorEngine::new(settings);
    let context = bare_context();

    let chain = engine.decide("你好", &context);
    assert!(!chain.is_empty());
}

#[test]
fn test_message_segmentation() {
    let mut settings = ImmersiveSettings::default();
    settings.behaviors.multi_segment = Some(3);
    let engine = BehaviorEngine::new(settings);

    let segments = engine.segment_message("第一句。第二句。第三句。");
    assert!(segments.len() <= 3);
}

#[test]
fn disabled_engine_echoes_message() {
    let settings = ImmersiveSettings::default();
    assert!(!settings.enabled);
    let engine = BehaviorEngine::new(settings);
    let context = bare_context();
    for msg in ["hello", "", "你好吗？今天心情不错！"] {
        let chain = engine.decide(msg, &context);
        assert_eq!(chain, vec![BehaviorAction::Speak(msg.to_string())]);
    }
}

#[test]
fn waits_stay_within_reply_delay_bounds() {
    let mut settings = enabled_settings();
    settings.behaviors.reply_delay = Some((500, 2000));
    settings.behaviors.multi_segment = None;
    settings.behaviors.typo_correction = None;
    settings.behaviors.ignore_rate = 0;
    let engine = BehaviorEngine::new(settings);
    let context = bare_context();
    for _ in 0..300 {
        let chain = engine.decide("一段不太长的测试消息。", &context);
        for action in &chain {
            if let BehaviorAction::Wait(d) = action {
                assert!(500 <= *d && *d <= 2000);
            }
        }
    }
}

#[test]
fn segmentation_concatenates_back_and_respects_limit() {
    let mut settings = enabled_settings();
    settings.behaviors.multi_segment = Some(4);
    // Make every accumulated run long enough to be eligible for a cut.
    settings.behaviors.segmentation_threshold_range = Some((1, 1));
    let engine = BehaviorEngine::new(settings);
    let message = "第一句。第二句。第三句。第四句。";
    for _ in 0..300 {
        let segments = engine.segment_message(message);
        assert!(1 <= segments.len() && segments.len() <= 4);
        // The message holds no whitespace, so trimming is the identity and
        // re-inserting the separators is plain concatenation.
        let joined: String = segments.concat();
        assert_eq!(joined, message);
    }
}

#[test]
fn typo_correction_chain_has_the_fixed_shape() {
    let mut settings = enabled_settings();
    settings.behaviors.ignore_rate = 0;
    settings.behaviors.typo_correction = Some(TypoConfig {
        trigger_rate: RATE_ONE,
        fix_delay_ms: 1500,
    });
    let engine = BehaviorEngine::new(settings);
    let context = bare_context();
    let message = "这是一条会被打错的消息";
    for _ in 0..100 {
        let chain = engine.decide(message, &context);
        assert_eq!(chain.len(), 6);
        assert_eq!(chain[0], BehaviorAction::Wait(800));
        assert!(matches!(chain[1], BehaviorAction::Speak(_)));
        assert_eq!(chain[2], BehaviorAction::Wait(1500));
        assert_eq!(chain[3], BehaviorAction::Retract(0));
        assert_eq!(chain[4], BehaviorAction::Wait(500));
        // The final payload is the original message, untouched.
        assert_eq!(chain[5], BehaviorAction::Speak(message.to_string()));
    }
}

#[test]
fn full_ignore_rate_without_idle_delay_always_idles() {
    let mut settings = enabled_settings();
    settings.behaviors.ignore_rate = RATE_ONE;
    settings.behaviors.idle_delay_config = None;
    let engine = BehaviorEngine::new(settings);
    let context = bare_context();
    for _ in 0..10000 {
        let chain = engine.decide("有人在吗", &context);
        assert_eq!(chain.len(), 1);
        assert!(matches!(chain[0], BehaviorAction::Idle));
    }
}

#[test]
fn full_ignore_rate_with_idle_delay_always_defers() {
    let mut settings = enabled_settings();
    settings.behaviors.ignore_rate = RATE_ONE;
    settings.behaviors.idle_delay_config = Some(IdleDelayConfig {
        delay_range_ms: (1000, 2000),
        reply_after_delay_rate: 5000,
    });
    let engine = BehaviorEngine::new(settings);
    let context = bare_context();
    let message = "有人在吗";
    for _ in 0..10000 {
        let chain = engine.decide(message, &context);
        assert_eq!(chain.len(), 1);
        match &chain[0] {
            BehaviorAction::DelayedDecision(d, orig) => {
                assert!(1000 <= *d && *d <= 2000);
                assert_eq!(orig, message);
            }
            other => panic!("expected a deferred decision, got {:?}", other),
        }
    }
}

#[test]
fn two_segment_scenario_keeps_one_internal_wait() {
    let mut settings = enabled_settings();
    settings.behaviors.ignore_rate = 0;
    settings.behaviors.typo_correction = None;
    settings.behaviors.multi_segment = Some(2);
    settings.behaviors.segment_delay_factor = (2000, 2000);
    settings.behaviors.segmentation_threshold_range = Some((1, 1));
    let engine = BehaviorEngine::new(settings);
    let context = bare_context();
    let message = "你好吗？今天心情不错！";
    let mut saw_two_segments = false;
    for _ in 0..2000 {
        let chain = engine.decide(message, &context);
        match chain.len() {
            2 => {
                assert!(matches!(chain[0], BehaviorAction::Wait(_)));
                assert_eq!(chain[1], BehaviorAction::Speak(message.to_string()));
            }
            4 => {
                saw_two_segments = true;
                let primary = match chain[0] {
                    BehaviorAction::Wait(d) => d,
                    _ => panic!("chain must start with a wait"),
                };
                // Exactly one internal wait, scaled by the fixed factor 0.2.
                match chain[2] {
                    BehaviorAction::Wait(w) => {
                        assert_eq!(w as u64, primary as u64 * 2000 / 10000)
                    }
                    _ => panic!("expected the internal wait"),
                }
                let (first, second) = match (&chain[1], &chain[3]) {
                    (BehaviorAction::Speak(a), BehaviorAction::Speak(b)) => (a, b),
                    _ => panic!("expected two speaks"),
                };
                assert_eq!(first, "你好吗？");
                assert_eq!(second, "今天心情不错！");
                assert_eq!(format!("{}{}", first, second), message);
            }
            n => panic!("unexpected chain length {}", n),
        }
        if saw_two_segments {
            break;
        }
    }
    assert!(saw_two_segments, "no split into two segments in 2000 trials");
}

#[test]
fn short_messages_get_no_typo() {
    let settings = enabled_settings();
    let engine = BehaviorEngine::new(settings);
    assert_eq!(engine.introduce_typo("嗯"), "嗯");
    assert_eq!(engine.introduce_typo("好的"), "好的");
}

#[test]
fn typo_touches_one_interior_character() {
    let settings = enabled_settings();
    let engine = BehaviorEngine::new(settings);
    let message = "今天天气很好";
    let n = message.chars().count();
    for _ in 0..200 {
        let flawed = engine.introduce_typo(message);
        let m = flawed.chars().count();
        // Either one character was duplicated or one was substituted.
        assert!(m == n || m == n + 1);
        // The first and last characters are never touched.
        assert_eq!(flawed.chars().next(), message.chars().next());
        assert_eq!(flawed.chars().last(), message.chars().last());
        assert_ne!(flawed.chars().nth(0), None);
    }
}

#[test]
fn delay_respects_configured_bounds_under_moods() {
    let mut settings = enabled_settings();
    settings.behaviors.reply_delay = Some((800, 3000));
    let engine = BehaviorEngine::new(settings);
    let moods = [
        None,
        Some(Mood::Happy),
        Some(Mood::Neutral),
        Some(Mood::Busy),
        Some(Mood::Tired),
        Some(Mood::Annoyed),
        Some(Mood::Other),
    ];
    for mood in moods {
        let context = SessionContext {
            session_id: 7,
            contact_id: 7,
            mood,
            busy_level: Some(5000),
            interest_level: Some(2500),
        };
        for _ in 0..50 {
            let d = engine.calculate_delay("一条用于测量延迟的消息", &context);
            assert!(800 <= d && d <= 3000);
        }
    }
}

#[test]
fn certain_reply_after_delay_produces_a_reply() {
    let mut settings = enabled_settings();
    settings.behaviors.idle_delay_config = Some(IdleDelayConfig {
        delay_range_ms: (1000, 2000),
        reply_after_delay_rate: RATE_ONE,
    });
    let engine = BehaviorEngine::new(settings);
    let context = bare_context();
    for _ in 0..200 {
        let chain = engine.decide_after_delay("回个话呀", &context);
        assert!(chain.len() >= 2);
        assert!(matches!(chain[0], BehaviorAction::Wait(_)));
        assert!(matches!(chain[1], BehaviorAction::Speak(_)));
    }
}

#[test]
fn zero_reply_after_delay_rate_stays_silent() {
    let mut settings = enabled_settings();
    settings.behaviors.idle_delay_config = Some(IdleDelayConfig {
        delay_range_ms: (1000, 2000),
        reply_after_delay_rate: 0,
    });
    let engine = BehaviorEngine::new(settings);
    let context = bare_context();
    for _ in 0..200 {
        let chain = engine.decide_after_delay("回个话呀", &context);
        assert_eq!(chain.len(), 1);
        assert!(matches!(chain[0], BehaviorAction::Idle));
    }
}

#[test]
fn proactive_parameters_stay_in_their_ranges() {
    let mut settings = enabled_settings();
    settings.behaviors.proactive_initiation = Some(ProactiveConfig {
        idle_threshold_range: (20, 40),
        success_rate: 3000,
        cooldown_range: (30, 60),
    });
    let engine = BehaviorEngine::new(settings);
    let context = bare_context();
    for _ in 0..200 {
        let (threshold, success, cooldown) = engine.get_proactive_parameters(&context);
        // No interest estimate nudges the success probability up by 0.1.
        assert_eq!(success, 4000);
        assert!(threshold >= 10);
        assert!(20 <= threshold && threshold <= 40);
        assert!(30 <= cooldown && cooldown <= 60);
    }
}

#[test]
fn proactive_success_rate_follows_the_context() {
    let mut settings = enabled_settings();
    settings.behaviors.proactive_initiation = Some(ProactiveConfig {
        idle_threshold_range: (10, 10),
        success_rate: 3000,
        cooldown_range: (30, 30),
    });
    let engine = BehaviorEngine::new(settings);
    // Full interest: 0.3 + (1.0 - 0.5) * 0.4 = 0.5.
    let context = SessionContext {
        session_id: 1,
        contact_id: 1,
        mood: None,
        busy_level: None,
        interest_level: Some(RATE_ONE),
    };
    let (_, success, _) = engine.get_proactive_parameters(&context);
    assert_eq!(success, 5000);
    // Add full busyness: 0.5 - 0.2 = 0.3; and a tired mood: 0.3 - 0.1 = 0.2.
    let context = SessionContext {
        session_id: 1,
        contact_id: 1,
        mood: Some(Mood::Tired),
        busy_level: Some(RATE_ONE),
        interest_level: Some(RATE_ONE),
    };
    let (_, success, _) = engine.get_proactive_parameters(&context);
    assert_eq!(success, 2000);
}

#[test]
fn empty_message_still_gets_a_chain() {
    let mut settings = enabled_settings();
    settings.behaviors.ignore_rate = 0;
    settings.behaviors.typo_correction = None;
    let engine = BehaviorEngine::new(settings);
    let context = bare_context();
    let chain = engine.decide("", &context);
    assert!(!chain.is_empty());
}

#[test]
fn toggles_default_matches_the_documented_values() {
    let b = BehaviorToggles::default();
    assert_eq!(b.reply_delay, Some((800, 3000)));
    assert_eq!(b.multi_segment, Some(3));
    assert_eq!(b.segment_delay_factor, (3000, 3000));
    assert_eq!(b.ignore_rate, 0);
    let idle = b.idle_delay_config.unwrap();
    assert_eq!(idle.delay_range_ms, (60000, 300000));
    assert_eq!(idle.reply_after_delay_rate, 5000);
    let typo = b.typo_correction.unwrap();
    assert_eq!(typo.trigger_rate, 200);
    assert_eq!(typo.fix_delay_ms, 1500);
    let pro = b.proactive_initiation.unwrap();
    assert_eq!(pro.idle_threshold_range, (10, 10));
    assert_eq!(pro.success_rate, 3000);
    assert_eq!(pro.cooldown_range, (30, 30));
}
