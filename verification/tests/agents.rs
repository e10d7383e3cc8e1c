use sleet::agents::{AgentStatus, StatusCategory};

#[test]
fn statuses_describe_themselves() {
    assert_eq!(AgentStatus::Available.description(), "Available for tasks");
    assert_eq!(
        AgentStatus::Busy { task_id: "t7".to_string(), started_at: 3 }.description(),
        "Executing task: t7"
    );
    assert_eq!(AgentStatus::Offline { reason: "network".to_string() }.description(), "Offline: network");
    assert_eq!(
        AgentStatus::Error { error: "oops".to_string(), recoverable: true }.description(),
        "Recoverable error: oops"
    );
    assert_eq!(
        AgentStatus::Error { error: "oops".to_string(), recoverable: false }.description(),
        "Fatal error: oops"
    );
    assert_eq!(AgentStatus::Maintenance.description(), "Under maintenance");
    assert_eq!(AgentStatus::Deactivated.description(), "Deactivated");
}

#[test]
fn operational_means_available_or_busy() {
    assert!(AgentStatus::Available.is_operational());
    assert!(AgentStatus::Busy { task_id: "t".to_string(), started_at: 0 }.is_operational());
    assert!(!AgentStatus::Maintenance.is_operational());
    assert!(AgentStatus::Error { error: "e".to_string(), recoverable: false }.is_error());
    assert!(!AgentStatus::Deactivated.is_error());
}

#[test]
fn statuses_compare_by_kind() {
    assert_eq!(
        AgentStatus::Busy { task_id: "a".to_string(), started_at: 1 },
        AgentStatus::Busy { task_id: "b".to_string(), started_at: 2 }
    );
    assert_ne!(AgentStatus::Available, AgentStatus::Maintenance);
    assert_eq!(AgentStatus::Offline { reason: "x".to_string() }.category(), StatusCategory::Offline);
}
