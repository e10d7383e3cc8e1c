use sleet::orchestration::adapter_types::{
    AgentSelectionCriteria, ExecutionMode, InteractionOptions, Priority, ValidationConfig,
};
use sleet::orchestration::definitions::{CompletionCriteria, ResourceRequirement, TaskExecutionConfig, TaskPriority};
use sleet::orchestration::errors::{AdapterError, OrchestrationError};
use sleet::orchestration::validation::{
    validate_interaction_input, validate_llm_request_input, validate_task_execution_input, ContextSnapshot,
    ContextVariable, InputValidator, WorkflowAdapter,
};
use sleet::runtime::JsonDatum;

fn invalid(r: Result<(), AdapterError>) -> String {
    match r {
        Err(AdapterError::InvalidInput(m)) => m,
        other => panic!("expected invalid input, got {other:?}"),
    }
}

fn context() -> ContextSnapshot {
    ContextSnapshot {
        session_id: "s1".to_string(),
        flow_id: "f1".to_string(),
        block_id: "b1".to_string(),
        variables: vec![ContextVariable { key: "topic".to_string(), text: Some("rust".to_string()) }],
    }
}

fn task(id: &str, deps: &[&str], success: &[&str], timeout: Option<u64>) -> TaskExecutionConfig {
    TaskExecutionConfig {
        task_id: id.to_string(),
        priority: TaskPriority::High,
        dependencies: deps.iter().map(|s| s.to_string()).collect(),
        completion_criteria: CompletionCriteria {
            success_conditions: success.iter().map(|s| s.to_string()).collect(),
            failure_conditions: Vec::new(),
            timeout_secs: timeout,
        },
    }
}

fn resources(cpu: Option<u32>, memory: Option<u64>, storage: Option<u64>) -> ResourceRequirement {
    ResourceRequirement {
        cpu_cores: cpu,
        memory_mb: memory,
        storage_mb: storage,
        network_bandwidth_mbps: None,
        specialised_hardware: Vec::new(),
    }
}

#[test]
fn prompt_checks() {
    let config = ValidationConfig::default();
    assert!(InputValidator::validate_prompt("Summarise the report", &config).is_ok());
    assert_eq!(invalid(InputValidator::validate_prompt("", &config)), "Prompt cannot be empty");
    assert_eq!(
        invalid(InputValidator::validate_prompt("Run <SCRIPT>alert(1)</script>", &config)),
        "Prompt contains potentially harmful content"
    );
    assert_eq!(
        invalid(InputValidator::validate_prompt("go to JavaScript:void(0)", &config)),
        "Prompt contains potentially harmful content"
    );
    let small = ValidationConfig { max_prompt_length: 4, ..ValidationConfig::default() };
    assert_eq!(invalid(InputValidator::validate_prompt("héllo", &small)), "Prompt too long: 6 characters (max: 4)");
}

#[test]
fn timeout_checks() {
    let config = ValidationConfig::default();
    assert_eq!(InputValidator::validate_timeout(None, &config).unwrap(), 30);
    assert_eq!(InputValidator::validate_timeout(Some(60), &config).unwrap(), 60);
    assert_eq!(InputValidator::validate_timeout(Some(3600), &config).unwrap(), 3600);
    match InputValidator::validate_timeout(Some(0), &config) {
        Err(AdapterError::InvalidInput(m)) => assert_eq!(m, "Timeout must be greater than 0"),
        other => panic!("{other:?}"),
    }
    match InputValidator::validate_timeout(Some(3601), &config) {
        Err(AdapterError::InvalidInput(m)) => assert_eq!(m, "Timeout cannot exceed 1 hour (3600 seconds)"),
        other => panic!("{other:?}"),
    }
}

#[test]
fn retry_checks() {
    let config = ValidationConfig::default();
    assert!(InputValidator::validate_retry_attempts(3, &config).is_ok());
    assert_eq!(invalid(InputValidator::validate_retry_attempts(4, &config)), "Too many retry attempts: 4 (max: 3)");
}

#[test]
fn dependency_checks() {
    let config = ValidationConfig::default();
    let deps = |v: &[&str]| v.iter().map(|s| s.to_string()).collect::<Vec<String>>();
    assert!(InputValidator::validate_task_dependencies(&deps(&["a", "b"]), &config).is_ok());
    assert_eq!(
        invalid(InputValidator::validate_task_dependencies(&deps(&["a", "", "a"]), &config)),
        "Dependency ID cannot be empty"
    );
    assert_eq!(
        invalid(InputValidator::validate_task_dependencies(&deps(&["a", "b", "a"]), &config)),
        "Duplicate dependency found: 'a'"
    );
    let many: Vec<String> = (0..11).map(|i| format!("d{i}")).collect();
    assert_eq!(
        invalid(InputValidator::validate_task_dependencies(&many, &config)),
        "Too many task dependencies: 11 (max: 10)"
    );
}

#[test]
fn context_variable_checks() {
    let config = ValidationConfig::default();
    let long_key = "k".repeat(101);
    let vars = vec![
        ContextVariable { key: "ok".to_string(), text: None },
        ContextVariable { key: long_key.clone(), text: None },
    ];
    assert_eq!(
        invalid(InputValidator::validate_context_variables(&vars, &config)),
        format!("Context variable key too long: '{long_key}' (101 chars, max: 100)")
    );
    let vars = vec![ContextVariable { key: "v".to_string(), text: Some("x".repeat(10001)) }];
    assert_eq!(
        invalid(InputValidator::validate_context_variables(&vars, &config)),
        "Context variable 'v' value too long (10001 chars, max: 10000)"
    );
    let vars = vec![ContextVariable { key: String::new(), text: None }];
    assert_eq!(invalid(InputValidator::validate_context_variables(&vars, &config)), "Context variable key cannot be empty");
    let small = ValidationConfig { max_context_variables: 0, ..ValidationConfig::default() };
    let vars = vec![ContextVariable { key: "a".to_string(), text: None }];
    assert_eq!(invalid(InputValidator::validate_context_variables(&vars, &small)), "Too many context variables: 1 (max: 0)");
}

#[test]
fn task_input_checks() {
    let config = ValidationConfig::default();
    let ctx = context();
    assert!(validate_task_execution_input(&config, &task("t1", &[], &["done"], Some(60)), &resources(Some(2), Some(512), None), &ctx).is_ok());
    assert_eq!(
        invalid(validate_task_execution_input(&config, &task("", &[], &["done"], None), &resources(None, None, None), &ctx)),
        "Task ID cannot be empty"
    );
    let long = "t".repeat(101);
    assert_eq!(
        invalid(validate_task_execution_input(&config, &task(&long, &[], &["done"], None), &resources(None, None, None), &ctx)),
        format!("Task ID too long: '{long}' (max: 100 chars)")
    );
    assert_eq!(
        invalid(validate_task_execution_input(&config, &task("t1", &[], &[], None), &resources(None, None, None), &ctx)),
        "At least one success or failure condition must be specified"
    );
    assert_eq!(
        invalid(validate_task_execution_input(&config, &task("t1", &[], &["ok"], Some(86401)), &resources(None, None, None), &ctx)),
        "Timeout cannot exceed 24 hours (86400 seconds)"
    );
    assert_eq!(
        invalid(validate_task_execution_input(&config, &task("t1", &[], &["ok"], None), &resources(Some(65), None, None), &ctx)),
        "CPU cores cannot exceed 64"
    );
    assert_eq!(
        invalid(validate_task_execution_input(&config, &task("t1", &[], &["ok"], None), &resources(None, Some(0), None), &ctx)),
        "Memory requirement must be greater than 0"
    );
    assert_eq!(
        invalid(validate_task_execution_input(&config, &task("t1", &[], &["ok"], None), &resources(None, None, Some(10485761)), &ctx)),
        "Storage requirement cannot exceed 10TB"
    );
    let mut no_block = context();
    no_block.block_id = String::new();
    assert_eq!(
        invalid(validate_task_execution_input(&config, &task("t1", &[], &["ok"], None), &resources(None, None, None), &no_block)),
        "Block ID cannot be empty"
    );
}

#[test]
fn workflow_input_checks() {
    let adapter = WorkflowAdapter::new();
    let ctx = context();
    let pair = |a: &str, b: &str| (a.to_string(), b.to_string());
    assert!(adapter.validate_workflow_invocation_input("wf", &vec![pair("p", "k")], &vec![pair("out", "result")], &ctx).is_ok());
    assert_eq!(invalid(adapter.validate_workflow_invocation_input("", &vec![], &vec![], &ctx)), "Workflow ID cannot be empty");
    assert_eq!(
        invalid(adapter.validate_workflow_invocation_input("wf", &vec![pair("p", "")], &vec![], &ctx)),
        "Context key cannot be empty"
    );
    let long = "r".repeat(101);
    assert_eq!(
        invalid(adapter.validate_workflow_invocation_input("wf", &vec![], &vec![pair("out", &long)], &ctx)),
        format!("Result path too long: '{long}' (max: 100 chars)")
    );
    let many: Vec<(String, String)> = (0..51).map(|i| pair(&format!("p{i}"), "k")).collect();
    assert_eq!(
        invalid(adapter.validate_workflow_invocation_input("wf", &many, &vec![], &ctx)),
        "Too many input mappings (max: 50)"
    );
    let mut no_session = context();
    no_session.session_id = String::new();
    assert_eq!(
        invalid(adapter.validate_workflow_invocation_input("wf", &vec![], &vec![], &no_session)),
        "Session ID cannot be empty"
    );
}

#[test]
fn llm_input_checks() {
    let config = ValidationConfig::default();
    let ctx = context();
    let keys = vec!["topic".to_string()];
    assert!(validate_llm_request_input(&config, "openai", "gpt-4", true, Some(100), "Tell me about {topic}", &keys, &ctx).is_ok());
    assert_eq!(
        invalid(validate_llm_request_input(&config, "", "gpt-4", true, None, "p", &keys, &ctx)),
        "LLM provider cannot be empty"
    );
    assert_eq!(
        invalid(validate_llm_request_input(&config, "openai", "gpt-4", false, None, "p", &keys, &ctx)),
        "Temperature must be between 0.0 and 2.0"
    );
    assert_eq!(
        invalid(validate_llm_request_input(&config, "openai", "gpt-4", true, Some(100001), "p", &keys, &ctx)),
        "Max tokens cannot exceed 100,000"
    );
    assert_eq!(
        invalid(validate_llm_request_input(&config, "openai", "gpt-4", true, None, "", &keys, &ctx)),
        "Prompt cannot be empty"
    );
    let bad_keys = vec![String::new()];
    assert_eq!(
        invalid(validate_llm_request_input(&config, "openai", "gpt-4", true, None, "p", &bad_keys, &ctx)),
        "Context key cannot be empty"
    );
}

#[test]
fn interaction_input_checks() {
    let config = ValidationConfig::default();
    let ctx = context();
    let criteria = |caps: &[&str], tags: &[&str], max: Option<u32>| AgentSelectionCriteria {
        required_capabilities: caps.iter().map(|s| s.to_string()).collect(),
        preferred_tags: tags.iter().map(|s| s.to_string()).collect(),
        exclude_busy: true,
        max_concurrent_tasks: max,
    };
    let options = |timeout: Option<u64>, retries: u32| InteractionOptions {
        timeout_seconds: timeout,
        retry_attempts: retries,
        priority: Priority::Normal,
        execution_mode: ExecutionMode::Synchronous,
    };
    let input = JsonDatum { text: "{\"q\":1}".to_string(), identity: "{\"q\":1}".to_string(), truthy: true };
    assert!(validate_interaction_input(&config, &criteria(&["rust"], &[], Some(10)), &input, &options(None, 3), &ctx).is_ok());
    assert_eq!(
        invalid(validate_interaction_input(&config, &criteria(&[], &[], None), &input, &options(None, 3), &ctx)),
        "At least one required capability or preferred tag must be specified"
    );
    let long_tag = "t".repeat(31);
    assert_eq!(
        invalid(validate_interaction_input(&config, &criteria(&[], &[&long_tag], None), &input, &options(None, 3), &ctx)),
        format!("Tag name too long: '{long_tag}' (max: 30 chars)")
    );
    assert_eq!(
        invalid(validate_interaction_input(&config, &criteria(&["rust"], &[], Some(101)), &input, &options(None, 3), &ctx)),
        "Max concurrent tasks cannot exceed 100"
    );
    assert_eq!(
        invalid(validate_interaction_input(&config, &criteria(&["rust"], &[], None), &input, &options(Some(0), 3), &ctx)),
        "Timeout must be greater than 0"
    );
    assert_eq!(
        invalid(validate_interaction_input(&config, &criteria(&["rust"], &[], None), &input, &options(None, 9), &ctx)),
        "Too many retry attempts: 9 (max: 3)"
    );
}

#[test]
fn adapter_errors_convert_to_orchestration_errors() {
    let e = OrchestrationError::from_adapter(AdapterError::AgentOperationFailed("boom".to_string()));
    assert_eq!(e.message(), "Agent interaction failed: boom");
    let e = OrchestrationError::from_adapter(AdapterError::ResourceNotFound("gone".to_string()));
    assert_eq!(e.message(), "Resource allocation failed: gone");
    let err = AdapterError::InvalidInput("say \"hi\"".to_string());
    let expected = format!("Adapter error: {err:?}");
    let e = OrchestrationError::from_adapter(err);
    assert_eq!(e.message(), expected);
    let e = OrchestrationError::from_adapter(AdapterError::TimeoutError { timeout_secs: 5 });
    assert_eq!(e.message(), "Adapter error: TimeoutError { timeout_secs: 5 }");
    assert_eq!(AdapterError::TimeoutError { timeout_secs: 7 }.message(), "Timeout: operation timed out after 7 seconds");
}
