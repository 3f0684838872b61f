use chat_pacing::actions::BehaviorAction;
use chat_pacing::context::SessionContext;
use chat_pacing::engine::BehaviorEngine;
use chat_pacing::executor::{ChainRun, ExecCommand, ExecEvent, ExecPhase};
use chat_pacing::scheduler::MessageScheduler;
use chat_pacing::settings::ImmersiveSettings;

fn bare_context() -> SessionContext {
    SessionContext {
        session_id: 1,
        contact_id: 1,
        mood: None,
        busy_level: None,
        interest_level: None,
    }
}

#[test]
fn test_scheduler_creation() {
    let scheduler = MessageScheduler::new();
    assert_eq!(scheduler.active_count(), 0);
}

#[test]
fn test_cancellation() {
    let mut scheduler = MessageScheduler::new();
    let (handle, superseded) = scheduler.start_chain(1, 0);
    assert!(superseded.is_none());
    assert!(!scheduler.is_cancelled_handle(handle));

    let cancelled = scheduler.cancel_session_behaviors(1);
    assert_eq!(cancelled, Some(handle));
    assert!(scheduler.is_cancelled_handle(handle));
    assert_eq!(scheduler.active_count(), 0);
}

#[test]
fn starting_a_second_chain_supersedes_the_first() {
    let mut scheduler = MessageScheduler::new();
    let (a, none) = scheduler.start_chain(42, 1000);
    assert!(none.is_none());

    let (b, superseded) = scheduler.start_chain(42, 2000);
    // Immediately after B starts, the registry holds B's handle; A's handle
    // is cancelled and distinct.
    assert_eq!(superseded, Some(a));
    assert_ne!(a, b);
    assert!(scheduler.is_cancelled_handle(a));
    assert!(!scheduler.is_cancelled_handle(b));
    assert_eq!(scheduler.active_count(), 1);
}

#[test]
fn chains_of_other_sessions_are_untouched() {
    let mut scheduler = MessageScheduler::new();
    let (a, _) = scheduler.start_chain(1, 0);
    let (b, _) = scheduler.start_chain(2, 0);
    assert_eq!(scheduler.active_count(), 2);

    scheduler.cancel_session_behaviors(1);
    assert!(scheduler.is_cancelled_handle(a));
    assert!(!scheduler.is_cancelled_handle(b));
    assert_eq!(scheduler.active_count(), 1);
}

#[test]
fn cancel_all_empties_the_registry() {
    let mut scheduler = MessageScheduler::new();
    let (a, _) = scheduler.start_chain(1, 0);
    let (b, _) = scheduler.start_chain(2, 0);
    let handles = scheduler.cancel_all_behaviors();
    assert_eq!(handles.len(), 2);
    assert!(scheduler.is_cancelled_handle(a));
    assert!(scheduler.is_cancelled_handle(b));
    assert_eq!(scheduler.active_count(), 0);
}

#[test]
fn finish_chain_removes_only_its_own_entry() {
    let mut scheduler = MessageScheduler::new();
    let (a, _) = scheduler.start_chain(7, 0);
    // A stale handle does not unregister the newer chain.
    let (b, _) = scheduler.start_chain(7, 10);
    scheduler.finish_chain(7, a);
    assert_eq!(scheduler.active_count(), 1);
    scheduler.finish_chain(7, b);
    assert_eq!(scheduler.active_count(), 0);
}

#[test]
fn touch_keeps_the_proactive_stamp() {
    let mut scheduler = MessageScheduler::new();
    scheduler.touch_session(5, 1000);
    let a = scheduler.get_activity(5).unwrap();
    assert_eq!(a.last_interaction, 1000);
    assert_eq!(a.last_proactive, None);

    scheduler.mark_proactive(5, 2000);
    scheduler.touch_session(5, 3000);
    let a = scheduler.get_activity(5).unwrap();
    assert_eq!(a.last_interaction, 3000);
    assert_eq!(a.last_proactive, Some(2000));

    assert!(scheduler.get_activity(6).is_none());
    let ids = scheduler.tracked_sessions();
    assert_eq!(ids, vec![5]);
}

#[test]
fn run_executes_a_chain_in_order() {
    let engine = BehaviorEngine::new(ImmersiveSettings::default());
    let context = bare_context();
    let chain = vec![
        BehaviorAction::Wait(100),
        BehaviorAction::Speak("第一段".to_string()),
        BehaviorAction::Wait(30),
        BehaviorAction::Speak("第二段".to_string()),
    ];
    let mut run = ChainRun::new(chain);

    let cmd = run.step(ExecEvent::Tick { cancelled: false }, &engine, &context);
    assert_eq!(cmd, ExecCommand::Wait { duration_ms: 100 });
    let cmd = run.step(ExecEvent::WaitDone { cancelled: false }, &engine, &context);
    assert_eq!(cmd, ExecCommand::Proceed);
    let cmd = run.step(ExecEvent::Tick { cancelled: false }, &engine, &context);
    assert_eq!(
        cmd,
        ExecCommand::Persist { content: "第一段".to_string() }
    );
    let cmd = run.step(ExecEvent::Spoken { message_id: Some(11) }, &engine, &context);
    assert_eq!(cmd, ExecCommand::Proceed);
    let cmd = run.step(ExecEvent::Tick { cancelled: false }, &engine, &context);
    assert_eq!(cmd, ExecCommand::Wait { duration_ms: 30 });
    let cmd = run.step(ExecEvent::WaitDone { cancelled: false }, &engine, &context);
    assert_eq!(cmd, ExecCommand::Proceed);
    let cmd = run.step(ExecEvent::Tick { cancelled: false }, &engine, &context);
    assert_eq!(
        cmd,
        ExecCommand::Persist { content: "第二段".to_string() }
    );
    let cmd = run.step(ExecEvent::Spoken { message_id: Some(12) }, &engine, &context);
    assert_eq!(cmd, ExecCommand::Proceed);
    // The queue is exhausted: the run stops and clears the typing indicator.
    let cmd = run.step(ExecEvent::Tick { cancelled: false }, &engine, &context);
    assert_eq!(cmd, ExecCommand::Stop { clear_typing: true });
    assert_eq!(run.phase, ExecPhase::Stopped);
}

#[test]
fn cancellation_mid_wait_prevents_the_later_speak() {
    let engine = BehaviorEngine::new(ImmersiveSettings::default());
    let context = bare_context();
    let chain = vec![
        BehaviorAction::Wait(5000),
        BehaviorAction::Speak("不该被发送".to_string()),
    ];
    let mut run = ChainRun::new(chain);

    let cmd = run.step(ExecEvent::Tick { cancelled: false }, &engine, &context);
    assert_eq!(cmd, ExecCommand::Wait { duration_ms: 5000 });
    // The wait is interrupted: the run stops, the speak never happens.
    let cmd = run.step(ExecEvent::WaitDone { cancelled: true }, &engine, &context);
    assert_eq!(cmd, ExecCommand::Stop { clear_typing: true });
    assert_eq!(run.phase, ExecPhase::Stopped);
    // Every further event is answered with a stop, never a persist.
    for _ in 0..3 {
        let cmd = run.step(ExecEvent::Tick { cancelled: false }, &engine, &context);
        assert_eq!(cmd, ExecCommand::Stop { clear_typing: false });
    }
}

#[test]
fn retract_deletes_the_last_spoken_message() {
    let engine = BehaviorEngine::new(ImmersiveSettings::default());
    let context = bare_context();
    let chain = vec![
        BehaviorAction::Speak("错误版本".to_string()),
        BehaviorAction::Retract(0),
    ];
    let mut run = ChainRun::new(chain);

    let cmd = run.step(ExecEvent::Tick { cancelled: false }, &engine, &context);
    assert!(matches!(cmd, ExecCommand::Persist { .. }));
    let cmd = run.step(ExecEvent::Spoken { message_id: Some(99) }, &engine, &context);
    assert_eq!(cmd, ExecCommand::Proceed);
    let cmd = run.step(ExecEvent::Tick { cancelled: false }, &engine, &context);
    assert_eq!(cmd, ExecCommand::Delete { message_id: 99 });
    let cmd = run.step(ExecEvent::Retracted { ok: true }, &engine, &context);
    assert_eq!(cmd, ExecCommand::Proceed);
    assert_eq!(run.last_message_id, None);
}

#[test]
fn retract_without_a_prior_speak_aborts_the_chain() {
    let engine = BehaviorEngine::new(ImmersiveSettings::default());
    let context = bare_context();
    let chain = vec![
        BehaviorAction::Retract(0),
        BehaviorAction::Speak("不该被发送".to_string()),
    ];
    let mut run = ChainRun::new(chain);
    let cmd = run.step(ExecEvent::Tick { cancelled: false }, &engine, &context);
    assert_eq!(cmd, ExecCommand::Stop { clear_typing: true });
    assert_eq!(run.phase, ExecPhase::Stopped);
}

#[test]
fn persistence_failure_abandons_the_chain() {
    let engine = BehaviorEngine::new(ImmersiveSettings::default());
    let context = bare_context();
    let chain = vec![
        BehaviorAction::Speak("a".to_string()),
        BehaviorAction::Speak("b".to_string()),
    ];
    let mut run = ChainRun::new(chain);
    let cmd = run.step(ExecEvent::Tick { cancelled: false }, &engine, &context);
    assert!(matches!(cmd, ExecCommand::Persist { .. }));
    let cmd = run.step(ExecEvent::Spoken { message_id: None }, &engine, &context);
    assert_eq!(cmd, ExecCommand::Stop { clear_typing: true });
    assert_eq!(run.phase, ExecPhase::Stopped);
}

#[test]
fn deferred_decision_splices_a_sub_chain() {
    // Certain reply after the delay: the spliced sub-chain must speak.
    let mut settings = ImmersiveSettings::default();
    settings.enabled = true;
    if let Some(idle) = settings.behaviors.idle_delay_config.as_mut() {
        idle.reply_after_delay_rate = chat_pacing::RATE_ONE;
    }
    let engine = BehaviorEngine::new(settings);
    let context = bare_context();
    let chain = vec![BehaviorAction::DelayedDecision(1000, "原始消息".to_string())];
    let mut run = ChainRun::new(chain);

    let cmd = run.step(ExecEvent::Tick { cancelled: false }, &engine, &context);
    assert_eq!(cmd, ExecCommand::Delay { duration_ms: 1000 });
    let cmd = run.step(ExecEvent::DelayDone { cancelled: false }, &engine, &context);
    assert_eq!(cmd, ExecCommand::Proceed);
    // The sub-chain starts with a Wait, then speaks.
    let cmd = run.step(ExecEvent::Tick { cancelled: false }, &engine, &context);
    assert!(matches!(cmd, ExecCommand::Wait { .. }));
    let cmd = run.step(ExecEvent::WaitDone { cancelled: false }, &engine, &context);
    assert_eq!(cmd, ExecCommand::Proceed);
    let cmd = run.step(ExecEvent::Tick { cancelled: false }, &engine, &context);
    assert!(matches!(cmd, ExecCommand::Persist { .. }));
}

#[test]
fn idle_action_has_no_side_effect() {
    let engine = BehaviorEngine::new(ImmersiveSettings::default());
    let context = bare_context();
    let mut run = ChainRun::new(vec![BehaviorAction::Idle]);
    let cmd = run.step(ExecEvent::Tick { cancelled: false }, &engine, &context);
    assert_eq!(cmd, ExecCommand::Proceed);
    let cmd = run.step(ExecEvent::Tick { cancelled: false }, &engine, &context);
    assert_eq!(cmd, ExecCommand::Stop { clear_typing: true });
}
