use sleet::orchestration::config::SessionStateStatus;
use sleet::orchestration::errors::OrchestrationError;
use sleet::orchestration::events::{SessionEvent, SessionState, StateTrackingEventHandler};

#[test]
fn a_session_is_tracked_through_its_events() {
    let mut h = StateTrackingEventHandler::new();
    assert!(h.get_session_state("s1").is_none());
    h.handle_event(Some("s1"), &SessionEvent::Started { flow_id: "flow".to_string(), timestamp: 10 });
    h.handle_event(Some("s1"), &SessionEvent::BlockStarted { block_id: "a".to_string() });
    h.handle_event(Some("s1"), &SessionEvent::Other);
    h.handle_event(Some("s1"), &SessionEvent::BlockStarted { block_id: "b".to_string() });
    h.handle_event(None, &SessionEvent::Completed { timestamp: 99 });
    let s = h.get_session_state("s1").unwrap();
    assert_eq!(s.status, SessionStateStatus::Running);
    assert_eq!(s.flow_id, Some("flow".to_string()));
    assert_eq!(s.started_at, Some(10));
    assert_eq!(s.current_block, Some("b".to_string()));
    assert_eq!(s.executed_blocks, vec!["a".to_string(), "b".to_string()]);
    assert_eq!(s.completed_at, None);

    h.handle_event(Some("s1"), &SessionEvent::Completed { timestamp: 20 });
    let s = h.get_session_state("s1").unwrap();
    assert_eq!(s.status, SessionStateStatus::Completed);
    assert_eq!(s.completed_at, Some(20));
}

#[test]
fn a_failure_keeps_the_error_message() {
    let mut h = StateTrackingEventHandler::new();
    h.handle_event(
        Some("s2"),
        &SessionEvent::Failed { error: OrchestrationError::ValidationError("bad flow".to_string()) },
    );
    let s = h.get_session_state("s2").unwrap();
    assert_eq!(s.status, SessionStateStatus::Failed);
    assert_eq!(s.last_error, Some("Validation error: bad flow".to_string()));
    assert_eq!(s.session_id, "s2");
    assert!(h.get_session_state("s1").is_none());
}

#[test]
fn a_new_state_is_pending() {
    let s = SessionState::new("x".to_string());
    assert_eq!(s.status, SessionStateStatus::Pending);
    assert!(s.executed_blocks.is_empty());
    let c = s.copy();
    assert_eq!(c.session_id, "x");
}
