use sleet::keyed::StringTable;
use sleet::llm::validation::{boolean_from_text, type_default_text, ValueType};
use sleet::orchestration::errors::OrchestrationError;
use sleet::orchestration::flow::{BlockOutline, BlockShape, FlowOutline};
use sleet::orchestration::manager::AllocatedResources;
use sleet::orchestration::planning::ExecutionPlan;
use sleet::orchestration::session::{ExecutionContext, ExecutionEvent, OrchestrationSession, SessionStatus};
use sleet::runtime::value::JsonDatum;

fn datum(text: &str, truthy: bool) -> JsonDatum {
    JsonDatum { text: text.to_string(), identity: text.to_string(), truthy }
}

fn session(gas_limit: u64) -> OrchestrationSession {
    let flow = FlowOutline {
        id: "flow".to_string(),
        start_block_id: "start".to_string(),
        blocks: vec![
            BlockOutline { id: "start".to_string(), shape: BlockShape::Step { next_block: "end".to_string() } },
            BlockOutline { id: "end".to_string(), shape: BlockShape::Other },
        ],
        agent_requirements: 0,
        llm_requirements: 0,
        task_requirements: 0,
    };
    let resources = AllocatedResources {
        session_id: "s1".to_string(),
        agents: Vec::new(),
        llm_instances: Vec::new(),
        tasks: Vec::new(),
        workflows: Vec::new(),
    };
    let plan = ExecutionPlan {
        flow_id: "flow".to_string(),
        execution_order: vec!["start".to_string(), "end".to_string()],
        parallel_groups: Vec::new(),
        estimated_duration_secs: 0,
        resource_requirements: StringTable::new(),
    };
    let ctx = ExecutionContext::new("s1".to_string(), None);
    OrchestrationSession::new("s1".to_string(), flow, ctx, resources, plan, gas_limit)
}

fn kind(e: OrchestrationError) -> (String, String) {
    match e {
        OrchestrationError::SessionError(m) => ("session".to_string(), m),
        OrchestrationError::ResourceAllocationError(m) => ("resource".to_string(), m),
        OrchestrationError::TaskExecutionError(m) => ("task".to_string(), m),
        other => panic!("unexpected error {other:?}"),
    }
}

#[test]
fn a_new_session_runs_from_the_start_block() {
    let s = session(10);
    assert_eq!(s.get_status(), "running");
    assert_eq!(s.get_current_block_id(), Some("start".to_string()));
    assert_eq!(s.gas_consumed, 0);
    assert_eq!(s.get_execution_context().shared_state.text, "{}");
    assert_eq!(s.get_final_result().text, "null");
    assert_eq!(s.get_block_definition("end").map(|b| b.id.clone()), Some("end".to_string()));
    assert!(s.get_block_definition("missing").is_none());
}

#[test]
fn gas_is_refused_past_the_limit() {
    let mut s = session(10);
    assert!(s.consume_gas(4).is_ok());
    assert!(s.consume_gas(6).is_ok());
    assert_eq!(s.gas_consumed, 10);
    assert_eq!(kind(s.consume_gas(1).unwrap_err()), ("resource".to_string(), "Out of gas".to_string()));
    assert_eq!(s.gas_consumed, 10);
    assert!(s.consume_gas(0).is_ok());
}

#[test]
fn input_resumes_only_a_waiting_session() {
    let mut s = session(10);
    assert_eq!(
        kind(s.resume_with_input(datum("1", true)).unwrap_err()),
        ("session".to_string(), "Session is not awaiting input".to_string())
    );
    s.set_awaiting_input("i1".to_string(), "a1".to_string(), datum("\"question\"", true));
    assert_eq!(s.get_status(), "awaiting_input");
    s.resume_with_input(datum("42", true)).unwrap();
    assert_eq!(s.get_status(), "running");
    assert!(s.execution_context.has_input_data());
    assert_eq!(s.execution_context.consume_input_data().map(|d| d.text), Some("42".to_string()));
    assert!(!s.execution_context.has_input_data());
}

#[test]
fn completion_sets_the_final_result() {
    let mut s = session(10);
    s.set_next_block("end".to_string());
    assert_eq!(s.get_current_block_id(), Some("end".to_string()));
    s.complete(datum("{\"ok\":true}", true));
    assert_eq!(s.get_status(), "completed");
    assert_eq!(s.get_current_block_id(), None);
    assert_eq!(s.get_final_result().text, "{\"ok\":true}");
}

#[test]
fn restoring_a_checkpoint_brings_back_context_block_and_gas() {
    let mut s = session(100);
    s.update_context_value("x", datum("1", true)).unwrap();
    s.consume_gas(5).unwrap();
    let c = s.create_checkpoint("c1".to_string());
    assert_eq!(s.checkpoints.len(), 1);
    s.update_context_value("x", datum("2", true)).unwrap();
    s.set_next_block("end".to_string());
    s.consume_gas(7).unwrap();
    s.complete(datum("null", false));
    s.restore_from_checkpoint(&c).unwrap();
    assert_eq!(s.get_status(), "running");
    assert_eq!(s.gas_consumed, 5);
    assert_eq!(s.get_current_block_id(), Some("start".to_string()));
    assert_eq!(s.execution_context.get_variable("x").map(|d| d.text.clone()), Some("1".to_string()));
    assert!(s.execution_context.final_result.is_none());
    assert_eq!(s.execution_history.len(), 2);
}

#[test]
fn a_checkpoint_of_another_session_is_refused() {
    let mut s = session(100);
    let mut c = s.create_checkpoint("c1".to_string());
    c.session_id = "other".to_string();
    s.consume_gas(3).unwrap();
    assert_eq!(
        kind(s.restore_from_checkpoint(&c).unwrap_err()),
        ("session".to_string(), "Checkpoint does not belong to this session".to_string())
    );
    assert_eq!(s.gas_consumed, 3);
}

#[test]
fn results_are_recorded_in_context_and_history() {
    let mut s = session(100);
    s.update_context_with_agent_result("a1", &datum("\"hi\"", true)).unwrap();
    s.update_context_with_workflow_result("w1", &datum("[]", false), 12).unwrap();
    s.update_context_with_task_result(&Ok(datum("3", true))).unwrap();
    let e = s.update_context_with_task_result(&Err("disk full".to_string())).unwrap_err();
    assert_eq!(kind(e), ("task".to_string(), "disk full".to_string()));
    let ctx = s.get_execution_context();
    assert_eq!(ctx.agent_results.get("a1").map(|d| d.text.clone()), Some("\"hi\"".to_string()));
    assert_eq!(ctx.workflow_results.get("w1").map(|r| r.execution_time_ms), Some(12));
    assert_eq!(ctx.task_results.get("default_task").map(|d| d.text.clone()), Some("3".to_string()));
    assert_eq!(s.execution_history.len(), 4);
    assert!(matches!(&s.execution_history[3], ExecutionEvent::TaskFailed { error } if error == "disk full"));
    assert!(matches!(s.status, SessionStatus::Running));
}

#[test]
fn boolean_texts_are_read_without_regard_to_case() {
    assert_eq!(boolean_from_text("YES"), Some(true));
    assert_eq!(boolean_from_text("True"), Some(true));
    assert_eq!(boolean_from_text("1"), Some(true));
    assert_eq!(boolean_from_text("No"), Some(false));
    assert_eq!(boolean_from_text("0"), Some(false));
    assert_eq!(boolean_from_text("maybe"), None);
}

#[test]
fn missing_fields_default_by_type() {
    assert_eq!(type_default_text(Some(ValueType::String)), "\"\"");
    assert_eq!(type_default_text(Some(ValueType::Number)), "0");
    assert_eq!(type_default_text(Some(ValueType::Boolean)), "false");
    assert_eq!(type_default_text(Some(ValueType::Array)), "[]");
    assert_eq!(type_default_text(Some(ValueType::Object)), "{}");
    assert_eq!(type_default_text(Some(ValueType::Any)), "null");
    assert_eq!(type_default_text(None), "null");
}

#[test]
fn contexts_are_kept_per_session() {
    use_context_manager();
}

fn use_context_manager() {
    let mut m = sleet::orchestration::session::ContextManager::new();
    assert!(m.get_context("s1").is_none());
    let c = m.create_context("s1", Some(datum("{\"k\":1}", true))).unwrap();
    assert_eq!(c.session_id, "s1");
    assert_eq!(c.shared_state.text, "{\"k\":1}");
    let mut changed = m.get_context("s1").unwrap();
    changed.set_value("x", datum("2", true));
    assert!(m.update_context("s1", changed).is_ok());
    assert_eq!(m.get_context("s1").unwrap().get_variable("x").map(|d| d.text.clone()), Some("2".to_string()));
    assert!(m.update_context("s2", ExecutionContext::new("s2".to_string(), None)).is_ok());
    assert!(m.get_context("s2").is_none());
    let fresh = m.create_context("s1", None).unwrap();
    assert_eq!(fresh.shared_state.text, "{}");
    assert!(m.get_context("s1").unwrap().get_variable("x").is_none());
    assert!(m.remove_context("s1").is_ok());
    assert!(m.get_context("s1").is_none());
}
