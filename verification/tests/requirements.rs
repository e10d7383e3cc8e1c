use sleet::orchestration::definitions::{CompletionCriteria, ResourceRequirement, TaskExecutionConfig, TaskPriority};
use sleet::orchestration::requirements::{analyse_flow_requirements, BlockNeeds};

fn task(id: &str) -> BlockNeeds {
    BlockNeeds::Task {
        config: TaskExecutionConfig {
            task_id: id.to_string(),
            priority: TaskPriority::High,
            dependencies: Vec::new(),
            completion_criteria: CompletionCriteria {
                success_conditions: Vec::new(),
                failure_conditions: Vec::new(),
                timeout_secs: None,
            },
        },
        resource_requirements: ResourceRequirement {
            cpu_cores: Some(2),
            memory_mb: None,
            storage_mb: None,
            network_bandwidth_mbps: None,
            specialised_hardware: Vec::new(),
        },
    }
}

#[test]
fn each_step_asks_for_its_kind_of_resource_in_order() {
    let blocks = vec![
        BlockNeeds::Agent { task_type: "review".to_string() },
        BlockNeeds::Nothing,
        BlockNeeds::Llm {
            provider: "ollama".to_string(),
            model: "llama3.1".to_string(),
            template_bytes: 10,
            context_keys: 2,
            max_tokens: None,
        },
        task("t1"),
        BlockNeeds::Workflow { workflow_id: "wf".to_string() },
        BlockNeeds::Agent { task_type: "write".to_string() },
        BlockNeeds::Llm {
            provider: "openai".to_string(),
            model: "gpt".to_string(),
            template_bytes: 0,
            context_keys: 0,
            max_tokens: Some(7),
        },
    ];
    let r = analyse_flow_requirements(blocks);
    let agents: Vec<(String, Vec<String>)> =
        r.agent_requirements.iter().map(|a| (a.task_type.clone(), a.capabilities.clone())).collect();
    assert_eq!(
        agents,
        vec![
            ("review".to_string(), vec!["review".to_string()]),
            ("write".to_string(), vec!["write".to_string()])
        ]
    );
    let llms: Vec<(String, String, u32)> =
        r.llm_requirements.iter().map(|l| (l.provider.clone(), l.model.clone(), l.estimated_tokens)).collect();
    assert_eq!(
        llms,
        vec![("ollama".to_string(), "llama3.1".to_string(), 3 + 100 + 1000), ("openai".to_string(), "gpt".to_string(), 7)]
    );
    assert_eq!(r.task_requirements.len(), 1);
    assert_eq!(r.task_requirements[0].config.task_id, "t1");
    assert_eq!(r.task_requirements[0].resource_requirements.cpu_cores, Some(2));
    assert_eq!(r.workflow_requirements.len(), 1);
    assert_eq!(r.workflow_requirements[0].workflow_id, "wf");
}

#[test]
fn a_flow_without_resource_steps_asks_for_nothing() {
    let r = analyse_flow_requirements(vec![BlockNeeds::Nothing]);
    assert!(r.agent_requirements.is_empty());
    assert!(r.llm_requirements.is_empty());
    assert!(r.task_requirements.is_empty());
    assert!(r.workflow_requirements.is_empty());
}
