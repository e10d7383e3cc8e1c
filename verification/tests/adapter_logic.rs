use sleet::orchestration::adapter_logic::{
    gather_workflow_inputs, prepare_llm_prompt, simulated_json_summary, simulated_structured_summary,
    simulated_task_outcome, simulated_text_reply, task_execution_record, workflow_output, resolve_output,
    adaptive_strategy, classify_agent_failure, fallback_task_outcome, llm_resource_usage, simulated_workflow_duration,
    substitute_placeholders, task_resource_usage, tokens_consumed, AgentFailureKind,
};
use sleet::orchestration::adapter_types::{CacheConfig, ErrorCategory, EvictionPolicy, ValidationConfig};
use sleet::orchestration::config::OrchestrationConfig;
use sleet::orchestration::definitions::{
    CompletionCriteria, ResourceRequirement, TaskExecutionConfig, TaskPriority, WorkflowExecutionMode,
};
use sleet::orchestration::errors::AdapterError;

#[test]
fn placeholders_are_filled_in_order() {
    let bindings = vec![
        ("name".to_string(), "Ada".to_string()),
        ("task".to_string(), "{name}'s proof".to_string()),
    ];
    assert_eq!(
        substitute_placeholders("Hi {name}, about {task}: {name}!", &bindings),
        "Hi Ada, about {name}'s proof: Ada!"
    );
    let late = vec![
        ("task".to_string(), "{name}".to_string()),
        ("name".to_string(), "Bo".to_string()),
    ];
    assert_eq!(substitute_placeholders("{task} and {name}", &late), "Bo and Bo");
    assert_eq!(substitute_placeholders("{missing}", &Vec::new()), "{missing}");
    let overlapping = vec![("a".to_string(), "x".to_string())];
    assert_eq!(substitute_placeholders("{{a}}{a}", &overlapping), "{x}x");
}

#[test]
fn agent_failures_are_classified() {
    assert_eq!(classify_agent_failure(AgentFailureKind::AgentNotFound), ("AGENT_NOT_FOUND", ErrorCategory::Resource, false));
    assert_eq!(classify_agent_failure(AgentFailureKind::LlmError), ("AGENT_LLM_ERROR", ErrorCategory::External, true));
    assert_eq!(classify_agent_failure(AgentFailureKind::Registry), ("AGENT_REGISTRY_ERROR", ErrorCategory::Internal, true));
    assert_eq!(
        classify_agent_failure(AgentFailureKind::CapabilityError),
        ("AGENT_CAPABILITY_ERROR", ErrorCategory::Validation, false)
    );
}

#[test]
fn task_outcomes_and_usage() {
    assert_eq!(fallback_task_outcome(TaskPriority::Critical), ("critical", "Critical task completed successfully"));
    assert_eq!(fallback_task_outcome(TaskPriority::High), ("high", "High priority task completed"));
    assert_eq!(fallback_task_outcome(TaskPriority::Low), ("normal", "Task completed"));
    let u = task_resource_usage(250, None);
    assert_eq!((u.cpu_time_ms, u.memory_peak_mb, u.network_bytes, u.storage_bytes), (25, 128, 0, 0));
    assert_eq!(task_resource_usage(9, Some(1001)).memory_peak_mb, 500);
    let u = llm_resource_usage(512, 40);
    assert_eq!((u.cpu_time_ms, u.memory_peak_mb, u.network_bytes), (102, 128, 40));
    assert_eq!(tokens_consumed(17), 4);
}

#[test]
fn workflow_timing() {
    assert_eq!(simulated_workflow_duration(WorkflowExecutionMode::Sequential, 9), 800);
    assert_eq!(simulated_workflow_duration(WorkflowExecutionMode::Parallel, 0), 400);
    assert_eq!(simulated_workflow_duration(WorkflowExecutionMode::Adaptive, 0), 300);
    assert_eq!(simulated_workflow_duration(WorkflowExecutionMode::Adaptive, 3), 600);
    assert_eq!(simulated_workflow_duration(WorkflowExecutionMode::Adaptive, 7), 1000);
    assert_eq!(adaptive_strategy(5), "sequential");
    assert_eq!(adaptive_strategy(6), "parallel");
}

#[test]
fn configuration_defaults() {
    let c = CacheConfig::default();
    assert_eq!((c.max_entries, c.ttl_seconds, c.eviction_policy), (1000, 300, EvictionPolicy::LRU));
    let v = ValidationConfig::default();
    assert_eq!((v.max_prompt_length, v.max_retry_attempts, v.default_timeout_seconds), (50000, 3, 30));
    let o = OrchestrationConfig::default();
    assert_eq!(o.max_concurrent_sessions, 100);
    assert_eq!(o.resource_limits.max_agents_per_session, 50);
    assert_eq!(o.storage_config.session_storage_path.as_deref(), Some("./orchestration/sessions"));
}

#[test]
fn an_llm_prompt_takes_its_context_values() {
    let mut vars: sleet::keyed::StringTable<sleet::runtime::JsonDatum> = sleet::keyed::StringTable::new();
    let datum = |t: &str| sleet::runtime::JsonDatum { text: t.to_string(), identity: t.to_string(), truthy: true };
    vars.insert("name".to_string(), datum("\"Ada\""));
    vars.insert("count".to_string(), datum("3"));
    let keys = vec!["name".to_string(), "count".to_string(), "missing".to_string()];
    let prompt = sleet::orchestration::adapter_logic::build_llm_prompt(
        "Hello {name}, you have {count} items {missing}",
        &keys,
        &vars,
    );
    assert_eq!(prompt, "Hello Ada, you have 3 items {missing}");
    let bindings = sleet::orchestration::adapter_logic::context_bindings(&keys, &vars);
    assert_eq!(bindings, vec![("name".to_string(), "Ada".to_string()), ("count".to_string(), "3".to_string())]);
}

fn plain_context() -> sleet::orchestration::validation::ContextSnapshot {
    sleet::orchestration::validation::ContextSnapshot {
        session_id: "s1".to_string(),
        flow_id: "f1".to_string(),
        block_id: "b1".to_string(),
        variables: Vec::new(),
    }
}

#[test]
fn an_llm_request_is_checked_filled_and_checked_again() {
    let config = ValidationConfig::default();
    let mut vars: sleet::keyed::StringTable<sleet::runtime::JsonDatum> = sleet::keyed::StringTable::new();
    let datum = |t: &str| sleet::runtime::JsonDatum { text: t.to_string(), identity: t.to_string(), truthy: true };
    vars.insert("topic".to_string(), datum("\"proofs\""));
    vars.insert("trap".to_string(), datum("\"<script>\""));
    let keys = vec!["topic".to_string()];
    let ok = prepare_llm_prompt(&config, "openai", "gpt-4", true, Some(100), "Explain {topic}", &keys, &plain_context(), &vars);
    assert_eq!(ok.unwrap(), "Explain proofs");
    let no_model = prepare_llm_prompt(&config, "openai", "", true, None, "Explain {topic}", &keys, &plain_context(), &vars);
    assert!(matches!(no_model, Err(AdapterError::InvalidInput(m)) if m == "LLM model cannot be empty"));
    let hot = prepare_llm_prompt(&config, "openai", "gpt-4", false, None, "Explain {topic}", &keys, &plain_context(), &vars);
    assert!(matches!(hot, Err(AdapterError::InvalidInput(m)) if m == "Temperature must be between 0.0 and 2.0"));
    let trap_keys = vec!["trap".to_string()];
    let harmful = prepare_llm_prompt(&config, "openai", "gpt-4", true, None, "Run {trap}", &trap_keys, &plain_context(), &vars);
    assert!(matches!(harmful, Err(AdapterError::InvalidInput(m)) if m == "Prompt contains potentially harmful content"));
}

#[test]
fn a_task_without_a_task_system_completes_by_priority() {
    let config = ValidationConfig::default();
    let task = |id: &str, priority: TaskPriority| TaskExecutionConfig {
        task_id: id.to_string(),
        priority,
        dependencies: Vec::new(),
        completion_criteria: CompletionCriteria {
            success_conditions: vec!["done".to_string()],
            failure_conditions: Vec::new(),
            timeout_secs: None,
        },
    };
    let needs = ResourceRequirement {
        cpu_cores: None,
        memory_mb: None,
        storage_mb: None,
        network_bandwidth_mbps: None,
        specialised_hardware: Vec::new(),
    };
    let critical = simulated_task_outcome(&config, &task("t7", TaskPriority::Critical), &needs, &plain_context()).unwrap();
    assert_eq!(critical.execution_id, "task_t7");
    assert_eq!(critical.priority_label, "critical");
    assert_eq!(critical.message, "Critical task completed successfully");
    let low = simulated_task_outcome(&config, &task("t8", TaskPriority::Low), &needs, &plain_context()).unwrap();
    assert_eq!((low.priority_label, low.message), ("normal", "Task completed"));
    let unnamed = simulated_task_outcome(&config, &task("", TaskPriority::High), &needs, &plain_context());
    assert!(matches!(unnamed, Err(AdapterError::InvalidInput(_))));
}

#[test]
fn workflow_inputs_are_gathered_in_mapping_order() {
    let mut vars: sleet::keyed::StringTable<sleet::runtime::JsonDatum> = sleet::keyed::StringTable::new();
    let datum = |t: &str| sleet::runtime::JsonDatum { text: t.to_string(), identity: t.to_string(), truthy: true };
    vars.insert("user".to_string(), datum("\"ada\""));
    vars.insert("limit".to_string(), datum("10"));
    let mapping = vec![
        ("max".to_string(), "limit".to_string()),
        ("who".to_string(), "absent".to_string()),
        ("name".to_string(), "user".to_string()),
    ];
    let gathered = gather_workflow_inputs(&mapping, &vars);
    let texts: Vec<(String, String)> = gathered.into_iter().map(|(p, d)| (p, d.text)).collect();
    assert_eq!(texts, vec![("max".to_string(), "10".to_string()), ("name".to_string(), "\"ada\"".to_string())]);
}

#[test]
fn simulated_replies_quote_the_head_of_the_prompt() {
    let long = "Summarise the quarterly report for the board, then list the risks and owners.";
    assert_eq!(
        simulated_text_reply(long, "gpt-4"),
        "Generated response for prompt: Summarise the quarterly report for the board, then... (using model: gpt-4)"
    );
    assert_eq!(simulated_json_summary(long), "Response for: Summarise the quarterly report");
    assert_eq!(simulated_structured_summary("short"), "Structured response for: short");
    assert_eq!(simulated_json_summary("héllo"), "Response for: héllo");
}

#[test]
fn a_task_step_records_its_result_document() {
    let config = ValidationConfig::default();
    let task = TaskExecutionConfig {
        task_id: "t1".to_string(),
        priority: TaskPriority::Critical,
        dependencies: Vec::new(),
        completion_criteria: CompletionCriteria {
            success_conditions: vec!["done".to_string()],
            failure_conditions: Vec::new(),
            timeout_secs: None,
        },
    };
    let needs = ResourceRequirement {
        cpu_cores: None,
        memory_mb: None,
        storage_mb: None,
        network_bandwidth_mbps: None,
        specialised_hardware: Vec::new(),
    };
    let outcome = simulated_task_outcome(&config, &task, &needs, &plain_context()).unwrap();
    let record = task_execution_record(&task, &needs, outcome, 250);
    assert_eq!(record.task_id, "t1");
    assert_eq!(record.execution_id, "task_t1");
    assert_eq!(record.duration_ms, 250);
    assert_eq!(record.resource_usage.cpu_time_ms, 25);
    assert_eq!(record.resource_usage.memory_peak_mb, 128);
    assert!(record.error_details.is_none());
    let mut expected = serde_json::Map::new();
    expected.insert("status".to_string(), serde_json::Value::from("completed"));
    expected.insert("priority".to_string(), serde_json::Value::from("critical"));
    expected.insert("result".to_string(), serde_json::Value::from("Critical task completed successfully"));
    let expected = serde_json::Value::Object(expected);
    assert_eq!(record.result.text, expected.to_string());
    assert_eq!(serde_json::from_str::<serde_json::Value>(&record.result.text).unwrap(), expected);
    assert!(record.result.truthy);
}

#[test]
fn workflow_outputs_take_a_member_then_a_pointer() {
    let result = r#"{"status":"completed","results":{"step_1":"done"},"a/b":1}"#;
    let mapping = vec![
        ("state".to_string(), "status".to_string()),
        ("first".to_string(), "/results/step_1".to_string()),
        ("none".to_string(), "/missing".to_string()),
        ("slash".to_string(), "a/b".to_string()),
    ];
    let out = workflow_output(result, &mapping).unwrap();
    assert_eq!(
        out,
        vec![
            ("state".to_string(), "\"completed\"".to_string()),
            ("first".to_string(), "\"done\"".to_string()),
            ("slash".to_string(), "1".to_string()),
        ]
    );
    assert!(workflow_output(result, &Vec::new()).is_none());
    assert_eq!(resolve_output(Some("1".to_string()), Some("2".to_string())), Some("1".to_string()));
    assert_eq!(resolve_output(None, Some("2".to_string())), Some("2".to_string()));
    assert_eq!(resolve_output(None, None), None);
}
