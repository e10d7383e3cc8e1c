use sleet::orchestration::definitions::{CompletionCriteria, ResourceRequirement, TaskExecutionConfig, TaskPriority};
use sleet::orchestration::errors::OrchestrationError;
use sleet::orchestration::flow::ResourceLimits;
use sleet::orchestration::manager::{
    agent_requirement_for, estimate_token_usage, FlowResourceRequirements, ResourceManager,
};
use sleet::orchestration::resources::{
    AgentRequirement, AgentResource, AvailabilityStatus, LLMRequirement, LLMResource, TaskRequirement,
    TaskResource, WorkflowRequirement, WorkflowResource,
};

fn limits(agents: u32, llms: u32, tasks: u32) -> ResourceLimits {
    ResourceLimits {
        max_agents_per_session: agents,
        max_llm_instances_per_session: llms,
        max_tasks_per_session: tasks,
        max_memory_mb_per_session: 1024,
        max_cpu_cores_per_session: 4,
    }
}

fn agent(id: &str, skills: &[&str]) -> AgentResource {
    AgentResource {
        id: id.to_string(),
        skill_names: skills.iter().map(|s| s.to_string()).collect(),
        availability_status: AvailabilityStatus::Available,
        total_executions: 0,
    }
}

fn llm(id: &str, executions: u64) -> LLMResource {
    LLMResource {
        id: id.to_string(),
        provider: "ollama".to_string(),
        model: "llama3.1".to_string(),
        availability_status: AvailabilityStatus::Available,
        total_executions: executions,
    }
}

fn requirement(cpu: Option<u32>) -> ResourceRequirement {
    ResourceRequirement {
        cpu_cores: cpu,
        memory_mb: None,
        storage_mb: None,
        network_bandwidth_mbps: None,
        specialised_hardware: Vec::new(),
    }
}

fn task(id: &str, cpu: Option<u32>) -> TaskResource {
    TaskResource {
        id: id.to_string(),
        executor_id: format!("exec-{id}"),
        resource_requirements: requirement(cpu),
        availability_status: AvailabilityStatus::Available,
        total_executions: 0,
    }
}

fn workflow(id: &str) -> WorkflowResource {
    WorkflowResource {
        id: id.to_string(),
        workflow_id: "wf".to_string(),
        executor_type: "default".to_string(),
        availability_status: AvailabilityStatus::Available,
        total_executions: 0,
    }
}

fn task_requirement(cpu: Option<u32>) -> TaskRequirement {
    TaskRequirement {
        config: TaskExecutionConfig {
            task_id: "t1".to_string(),
            priority: TaskPriority::Normal,
            dependencies: Vec::new(),
            completion_criteria: CompletionCriteria {
                success_conditions: Vec::new(),
                failure_conditions: Vec::new(),
                timeout_secs: None,
            },
        },
        resource_requirements: requirement(cpu),
    }
}

fn llm_requirement() -> LLMRequirement {
    LLMRequirement { provider: "ollama".to_string(), model: "llama3.1".to_string(), estimated_tokens: 100 }
}

fn caps(c: &[&str]) -> AgentRequirement {
    AgentRequirement { task_type: c[0].to_string(), capabilities: c.iter().map(|s| s.to_string()).collect() }
}

fn stocked_manager() -> ResourceManager {
    let mut m = ResourceManager::new(limits(5, 5, 5));
    m.add_agent_resource(agent("a1", &["rust"])).unwrap();
    m.add_agent_resource(agent("a2", &["rust", "audit"])).unwrap();
    m.add_llm_resource(llm("l1", 7)).unwrap();
    m.add_llm_resource(llm("l2", 3)).unwrap();
    m.add_task_resource(task("t1", Some(2))).unwrap();
    m.add_task_resource(task("t2", Some(8))).unwrap();
    m.add_workflow_resource(workflow("w1")).unwrap();
    m.add_workflow_resource(workflow("w2")).unwrap();
    m
}

fn message(e: OrchestrationError) -> String {
    match e {
        OrchestrationError::ResourceAllocationError(m) => m,
        other => panic!("unexpected error {other:?}"),
    }
}

#[test]
fn flow_allocation_hands_out_each_kind() {
    let mut m = stocked_manager();
    let reqs = FlowResourceRequirements {
        agent_requirements: vec![caps(&["audit"])],
        llm_requirements: vec![llm_requirement(), llm_requirement()],
        task_requirements: vec![task_requirement(Some(4))],
        workflow_requirements: vec![WorkflowRequirement { workflow_id: "wf".to_string() }],
    };
    let a = m.allocate_for_flow("s1".to_string(), &reqs).unwrap();
    assert_eq!(a.session_id, "s1");
    assert_eq!(a.agents.iter().map(|x| x.id.as_str()).collect::<Vec<_>>(), vec!["a2"]);
    assert_eq!(a.llm_instances.iter().map(|x| x.id.as_str()).collect::<Vec<_>>(), vec!["l2", "l2"]);
    assert_eq!(a.tasks.iter().map(|x| x.id.as_str()).collect::<Vec<_>>(), vec!["t2"]);
    assert_eq!(a.workflows.iter().map(|x| x.id.as_str()).collect::<Vec<_>>(), vec!["w1"]);
    assert_eq!(m.debug_pool_state(), (1, 1, 2, 0, 1, 1, 1, 1));
    let u = m.get_resource_utilisation();
    assert_eq!((u.active_agents, u.active_llm_instances, u.active_tasks, u.active_workflows), (1, 2, 1, 1));
    assert_eq!(u.total_allocations, 1);
}

#[test]
fn release_gives_everything_back() {
    let mut m = stocked_manager();
    let reqs = FlowResourceRequirements {
        agent_requirements: vec![caps(&["rust"]), caps(&["rust"])],
        llm_requirements: vec![llm_requirement()],
        task_requirements: vec![task_requirement(None)],
        workflow_requirements: vec![
            WorkflowRequirement { workflow_id: "a".to_string() },
            WorkflowRequirement { workflow_id: "b".to_string() },
        ],
    };
    m.allocate_for_flow("s1".to_string(), &reqs).unwrap();
    assert_eq!(m.debug_pool_state(), (0, 2, 2, 0, 1, 1, 0, 2));
    m.release_resources("s1").unwrap();
    assert_eq!(m.debug_pool_state(), (2, 0, 2, 0, 2, 0, 2, 0));
    let u = m.get_resource_utilisation();
    assert_eq!((u.active_agents, u.active_llm_instances, u.active_tasks, u.active_workflows), (0, 0, 0, 0));
    assert_eq!((u.total_allocations, u.total_deallocations), (1, 1));
}

#[test]
fn releasing_an_unknown_session_fails() {
    let mut m = stocked_manager();
    let e = m.release_resources("nope").unwrap_err();
    assert_eq!(message(e), "No resources allocated for session: nope");
    assert_eq!(m.debug_pool_state(), (2, 0, 2, 0, 2, 0, 2, 0));
}

#[test]
fn counts_above_the_limits_are_refused() {
    let mut m = ResourceManager::new(limits(1, 5, 5));
    let reqs = FlowResourceRequirements {
        agent_requirements: vec![caps(&["x"]), caps(&["y"])],
        llm_requirements: Vec::new(),
        task_requirements: Vec::new(),
        workflow_requirements: Vec::new(),
    };
    assert_eq!(message(m.validate_resource_requirements(&reqs).unwrap_err()), "Agent requirement exceeds limit: 2 > 1");
    assert_eq!(message(m.allocate_for_flow("s".to_string(), &reqs).unwrap_err()), "Agent requirement exceeds limit: 2 > 1");
    let mut m = ResourceManager::new(limits(5, 0, 5));
    let reqs = FlowResourceRequirements {
        agent_requirements: Vec::new(),
        llm_requirements: vec![llm_requirement()],
        task_requirements: Vec::new(),
        workflow_requirements: Vec::new(),
    };
    assert_eq!(message(m.allocate_for_flow("s".to_string(), &reqs).unwrap_err()), "LLM requirement exceeds limit: 1 > 0");
    let m = ResourceManager::new(limits(5, 5, 0));
    let reqs = FlowResourceRequirements {
        agent_requirements: Vec::new(),
        llm_requirements: Vec::new(),
        task_requirements: vec![task_requirement(None)],
        workflow_requirements: Vec::new(),
    };
    assert_eq!(message(m.validate_resource_requirements(&reqs).unwrap_err()), "Task requirement exceeds limit: 1 > 0");
}

#[test]
fn each_stage_reports_its_failure() {
    let mut m = stocked_manager();
    let reqs = FlowResourceRequirements {
        agent_requirements: vec![caps(&["go"])],
        llm_requirements: Vec::new(),
        task_requirements: Vec::new(),
        workflow_requirements: Vec::new(),
    };
    assert_eq!(
        message(m.allocate_for_flow("s".to_string(), &reqs).unwrap_err()),
        "No agent available with required capabilities: [\"go\"]"
    );
    let mut empty = ResourceManager::new(limits(5, 5, 5));
    let reqs = FlowResourceRequirements {
        agent_requirements: Vec::new(),
        llm_requirements: vec![llm_requirement()],
        task_requirements: Vec::new(),
        workflow_requirements: Vec::new(),
    };
    assert_eq!(message(empty.allocate_for_flow("s".to_string(), &reqs).unwrap_err()), "No LLM instances available");
    let reqs = FlowResourceRequirements {
        agent_requirements: Vec::new(),
        llm_requirements: Vec::new(),
        task_requirements: vec![task_requirement(Some(16))],
        workflow_requirements: Vec::new(),
    };
    assert_eq!(
        message(m.allocate_for_flow("s".to_string(), &reqs).unwrap_err()),
        "No suitable task resources available for the given requirements"
    );
    let reqs = FlowResourceRequirements {
        agent_requirements: Vec::new(),
        llm_requirements: Vec::new(),
        task_requirements: Vec::new(),
        workflow_requirements: vec![
            WorkflowRequirement { workflow_id: "a".to_string() },
            WorkflowRequirement { workflow_id: "b".to_string() },
            WorkflowRequirement { workflow_id: "c".to_string() },
        ],
    };
    assert_eq!(message(m.allocate_for_flow("s".to_string(), &reqs).unwrap_err()), "No workflow resources available");
    // what the failed stage took before running out stays taken
    assert_eq!(m.debug_pool_state(), (2, 0, 2, 0, 2, 0, 0, 2));
}

#[test]
fn an_empty_flow_is_served_with_nothing() {
    let mut m = ResourceManager::new(limits(0, 0, 0));
    let reqs = FlowResourceRequirements {
        agent_requirements: Vec::new(),
        llm_requirements: Vec::new(),
        task_requirements: Vec::new(),
        workflow_requirements: Vec::new(),
    };
    let a = m.allocate_for_flow("s".to_string(), &reqs).unwrap();
    assert!(a.agents.is_empty() && a.llm_instances.is_empty() && a.tasks.is_empty() && a.workflows.is_empty());
    m.release_resources("s").unwrap();
    assert_eq!(m.get_resource_utilisation().total_deallocations, 1);
}

#[test]
fn token_estimate_adds_template_context_and_output() {
    assert_eq!(estimate_token_usage(10, 2, Some(200)), 3 + 100 + 200);
    assert_eq!(estimate_token_usage(8, 0, None), 2 + 1000);
    assert_eq!(estimate_token_usage(0, 0, Some(0)), 0);
}

#[test]
fn an_agent_step_asks_for_its_task_type() {
    let r = agent_requirement_for(&"code_audit".to_string());
    assert_eq!(r.task_type, "code_audit");
    assert_eq!(r.capabilities, vec!["code_audit".to_string()]);
}
