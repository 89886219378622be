use wh_broker::cron::chain::{ChainError, ChainEvent};
use wh_broker::cron::handler::{CronEventHandler, CronHandlerError, HandlerOutcome};

#[test]
fn chain_event_type_names_are_correct() {
    let e = ChainEvent::CronEventReceived { job_name: "test".into(), timestamp_ms: 100 };
    assert_eq!(e.kind_name(), "CronEvent");

    let e = ChainEvent::SkillInvocationPublished { invocation_id: "inv-1".into(), skill_name: "echo".into(), timestamp_ms: 200 };
    assert_eq!(e.kind_name(), "SkillInvocation");

    let e = ChainEvent::SkillProgressPublished {
        invocation_id: "inv-1".into(),
        percent: 0,
        message: "started".into(),
        timestamp_ms: 300,
    };
    assert_eq!(e.kind_name(), "SkillProgress");

    let e = ChainEvent::SkillResultReceived {
        invocation_id: "inv-1".into(),
        success: true,
        output_or_error: "ok".into(),
        timestamp_ms: 400,
    };
    assert_eq!(e.kind_name(), "SkillResult");

    let e = ChainEvent::TextMessagePublished { content: "summary".into(), timestamp_ms: 500 };
    assert_eq!(e.kind_name(), "TextMessage");
}

#[test]
fn chain_event_timestamps_are_accessible() {
    let e = ChainEvent::CronEventReceived { job_name: "test".into(), timestamp_ms: 42 };
    assert_eq!(e.timestamp_ms(), 42);
}

#[test]
fn chain_error_codes_are_screaming_snake_case() {
    let e = ChainError::DispatchFailed { job_name: "test".into(), reason: "no handler".into() };
    assert_eq!(e.code(), "CHAIN_DISPATCH_FAILED");

    let e = ChainError::InvocationFailed { job_name: "test".into(), reason: "timeout".into() };
    assert_eq!(e.code(), "SKILL_INVOCATION_FAILED");
}

#[test]
fn error_display_action_not_found() {
    let err = CronHandlerError::ActionNotFound { job_name: "daily-compaction".to_string() };
    assert_eq!(err.message(), "no handler registered for cron job 'daily-compaction'");
    assert_eq!(err.code(), "ACTION_NOT_FOUND");
}

#[test]
fn error_display_execution_failed() {
    let err = CronHandlerError::ExecutionFailed { job_name: "nightly-backup".to_string(), source: "disk full".to_string() };
    assert!(err.message().contains("nightly-backup"));
    assert!(err.message().contains("disk full"));
    assert_eq!(err.code(), "EXECUTION_FAILED");
}

#[test]
fn error_display_timeout() {
    let err = CronHandlerError::Timeout { job_name: "slow-task".to_string(), elapsed_secs: 60 };
    assert!(err.message().contains("slow-task"));
    assert!(err.message().contains("60"));
    assert_eq!(err.code(), "HANDLER_TIMEOUT");
}

#[test]
fn handler_error_codes_are_screaming_snake_case() {
    let cases = vec![
        CronHandlerError::ActionNotFound { job_name: "x".to_string() },
        CronHandlerError::ExecutionFailed { job_name: "x".to_string(), source: "err".to_string() },
        CronHandlerError::Timeout { job_name: "x".to_string(), elapsed_secs: 1 },
    ];

    for err in &cases {
        let code = err.code();
        assert!(
            code.chars().all(|c| c.is_ascii_uppercase() || c == '_'),
            "error code '{code}' is not SCREAMING_SNAKE_CASE"
        );
    }
}

#[test]
fn chain_error_messages() {
    let e = ChainError::DispatchFailed { job_name: "j".into(), reason: "r".into() };
    assert_eq!(e.message(), "chain dispatch failed for job 'j': r");
    let e = ChainError::InvocationFailed { job_name: "j".into(), reason: "r".into() };
    assert_eq!(e.message(), "skill invocation failed for job 'j': r");
    let closed = ChainError::ChannelClosed { job_name: "j".into() };
    assert_eq!(closed.code(), "CHAIN_CHANNEL_CLOSED");
    assert_eq!(closed.message(), "channel closed unexpectedly during chain for job 'j'");
    let t = CronHandlerError::Timeout { job_name: "slow".to_string(), elapsed_secs: 60 };
    assert_eq!(t.message(), "handler timed out for cron job 'slow' after 60s");
}

use wh_broker::cron::chain::{ChainOutcome, NotificationType};
use wh_broker::cron::orchestrator::chain_outcome;
use wh_broker::cron::proto_bridge::build_chain_summary;
use wh_broker::cron::dispatcher::CronEventDispatcher;
use wh_broker::cron::CronEventMessage;
use wh_broker::strmap::StrMap;

#[test]
fn build_chain_summary_includes_all_event_types() {
    let outcome = ChainOutcome {
        events: vec![
            ChainEvent::CronEventReceived { job_name: "test".into(), timestamp_ms: 100 },
            ChainEvent::SkillInvocationPublished { invocation_id: "inv-1".into(), skill_name: "echo".into(), timestamp_ms: 200 },
            ChainEvent::SkillProgressPublished {
                invocation_id: "inv-1".into(),
                percent: 0,
                message: "started".into(),
                timestamp_ms: 300,
            },
            ChainEvent::SkillResultReceived {
                invocation_id: "inv-1".into(),
                success: true,
                output_or_error: "ok".into(),
                timestamp_ms: 400,
            },
            ChainEvent::TextMessagePublished { content: "summary".into(), timestamp_ms: 500 },
        ],
        success: true,
        summary_text: "echo-cron completed".into(),
    };

    let summary = build_chain_summary(&outcome);
    assert!(summary.contains("SUCCESS"));
    assert!(summary.contains("CronEvent"));
    assert!(summary.contains("SkillInvocation"));
    assert!(summary.contains("SkillProgress"));
    assert!(summary.contains("SkillResult"));
    assert!(summary.contains("TextMessage"));
}

#[test]
fn chain_summary_exact_text() {
    let outcome = ChainOutcome {
        events: vec![ChainEvent::CronEventReceived { job_name: "j".into(), timestamp_ms: 7 }],
        success: false,
        summary_text: "s".into(),
    };
    assert_eq!(build_chain_summary(&outcome), "[CRON CHAIN FAILED] s\nEvents:\n  CronEvent (t=7)");
}

#[test]
fn chain_outcome_success_logs_five_events_in_order() {
    let inv = ChainEvent::SkillInvocationPublished { invocation_id: "inv-9".into(), skill_name: "echo".into(), timestamp_ms: 2 };
    let (outcome, note) = chain_outcome("nightly", 1, inv, 3, 4, 5).unwrap();
    assert!(outcome.success);
    assert!(note.is_none());
    let kinds: Vec<&str> = outcome.events.iter().map(|e| e.kind_name()).collect();
    assert_eq!(kinds, vec!["CronEvent", "SkillInvocation", "SkillProgress", "SkillResult", "TextMessage"]);
    assert_eq!(outcome.summary_text, "[CRON CHAIN OK] job=nightly skill=echo output=simulated output from skill 'echo'");
}

#[test]
fn chain_outcome_failing_skill_notifies() {
    let inv = ChainEvent::SkillInvocationPublished { invocation_id: "inv-9".into(), skill_name: "fail-x".into(), timestamp_ms: 2 };
    let (outcome, note) = chain_outcome("nightly", 1, inv, 3, 4, 5).unwrap();
    assert!(!outcome.success);
    let note = note.unwrap();
    assert_eq!(note.notification_type, NotificationType::SkillFailure);
    assert_eq!(note.metadata.get("error_code").map(|s| s.as_str()), Some("SKILL_RESULT_ERROR"));
    assert_eq!(note.metadata.get("skill_name").map(|s| s.as_str()), Some("fail-x"));
}

#[test]
fn chain_outcome_rejects_other_events() {
    let ev = ChainEvent::TextMessagePublished { content: "x".into(), timestamp_ms: 1 };
    let err = chain_outcome("nightly", 1, ev, 3, 4, 5).unwrap_err();
    assert_eq!(err, ChainError::InvocationFailed { job_name: "nightly".into(), reason: "unexpected event type from handler".into() });
}

#[test]
fn dispatch_routes_to_correct_handler() {
    let mut dispatcher: CronEventDispatcher<u32> = CronEventDispatcher::new();
    dispatcher.register_handler("test-job", 7);
    let event = CronEventMessage {
        job_name: "test-job".into(),
        action: "event".into(),
        schedule: "* * * * *".into(),
        payload: StrMap::new(),
    };
    assert_eq!(dispatcher.dispatch(&event), Some(&7));
}

#[test]
fn dispatch_unknown_job_returns_none() {
    let dispatcher: CronEventDispatcher<u32> = CronEventDispatcher::new();
    let event = CronEventMessage {
        job_name: "unknown".into(),
        action: "event".into(),
        schedule: "* * * * *".into(),
        payload: StrMap::new(),
    };
    assert_eq!(dispatcher.dispatch(&event), None);
}

#[test]
fn register_handler_replaces_earlier_one() {
    let mut dispatcher: CronEventDispatcher<u32> = CronEventDispatcher::new();
    dispatcher.register_handler("job", 1);
    dispatcher.register_handler("other", 2);
    dispatcher.register_handler("job", 3);
    let ev = |name: &str| CronEventMessage { job_name: name.into(), action: "a".into(), schedule: "s".into(), payload: StrMap::new() };
    assert_eq!(dispatcher.dispatch(&ev("job")), Some(&3));
    assert_eq!(dispatcher.dispatch(&ev("other")), Some(&2));
}

use wh_broker::cron::orchestrator::format_chain_log;

#[test]
fn format_chain_log_lists_each_event() {
    let events = vec![
        ChainEvent::CronEventReceived { job_name: "j".into(), timestamp_ms: 1 },
        ChainEvent::TextMessagePublished { content: "c".into(), timestamp_ms: -2 },
    ];
    assert_eq!(format_chain_log(&events), vec!["CronEvent (t=1)".to_string(), "TextMessage (t=-2)".to_string()]);
}

struct EchoHandler;

impl CronEventHandler for EchoHandler {
    fn handle(&self, event: &CronEventMessage) -> Result<HandlerOutcome, CronHandlerError> {
        if event.action == "fail" {
            Err(CronHandlerError::ExecutionFailed { job_name: event.job_name.clone(), source: "boom".into() })
        } else {
            Ok(HandlerOutcome::Completed { message: format!("ran {}", event.job_name) })
        }
    }
}

#[test]
fn dispatched_handler_handles_the_event() {
    let mut dispatcher: CronEventDispatcher<EchoHandler> = CronEventDispatcher::new();
    dispatcher.register_handler("nightly", EchoHandler);
    let ev = |action: &str| CronEventMessage { job_name: "nightly".into(), action: action.into(), schedule: "0 0 * * *".into(), payload: StrMap::new() };
    let handler = dispatcher.dispatch(&ev("run")).expect("registered");
    match handler.handle(&ev("run")) {
        Ok(HandlerOutcome::Completed { message }) => assert_eq!(message, "ran nightly"),
        Err(e) => panic!("unexpected error {e:?}"),
    }
    assert_eq!(
        handler.handle(&ev("fail")).unwrap_err().code(),
        "EXECUTION_FAILED"
    );
}
