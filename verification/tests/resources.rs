use sleet::orchestration::definitions::{CompletionCriteria, ResourceRequirement, TaskExecutionConfig, TaskPriority};
use sleet::orchestration::errors::OrchestrationError;
use sleet::orchestration::resources::{
    AgentRequirement, AgentResource, AvailabilityStatus, LLMRequirement, LLMResource, ResourcePool,
    ResourceType, TaskRequirement, TaskResource,
};
use sleet::orchestration::strategies::{
    CapabilityBasedStrategy, LoadBalancedStrategy, PriorityBasedStrategy, RoundRobinStrategy,
};
use sleet::orchestration::tracker::{AllocationCounts, ResourceUsageTracker};

fn agent(id: &str, skills: &[&str], executions: u64) -> AgentResource {
    AgentResource {
        id: id.to_string(),
        skill_names: skills.iter().map(|s| s.to_string()).collect(),
        availability_status: AvailabilityStatus::Available,
        total_executions: executions,
    }
}

fn llm(id: &str) -> LLMResource {
    LLMResource {
        id: id.to_string(),
        provider: "openai".to_string(),
        model: "gpt-4".to_string(),
        availability_status: AvailabilityStatus::Available,
        total_executions: 0,
    }
}

fn requirement(cpu: Option<u32>, memory: Option<u64>) -> ResourceRequirement {
    ResourceRequirement {
        cpu_cores: cpu,
        memory_mb: memory,
        storage_mb: None,
        network_bandwidth_mbps: None,
        specialised_hardware: Vec::new(),
    }
}

fn task_resource(id: &str, cpu: Option<u32>, memory: Option<u64>) -> TaskResource {
    TaskResource {
        id: id.to_string(),
        executor_id: format!("exec-{id}"),
        resource_requirements: requirement(cpu, memory),
        availability_status: AvailabilityStatus::Available,
        total_executions: 0,
    }
}

fn agent_requirement(caps: &[&str]) -> AgentRequirement {
    AgentRequirement { task_type: "analysis".to_string(), capabilities: caps.iter().map(|s| s.to_string()).collect() }
}

fn task_requirement(cpu: Option<u32>, memory: Option<u64>) -> TaskRequirement {
    TaskRequirement {
        config: TaskExecutionConfig {
            task_id: "t1".to_string(),
            priority: TaskPriority::Normal,
            dependencies: Vec::new(),
            completion_criteria: CompletionCriteria {
                success_conditions: vec!["done".to_string()],
                failure_conditions: Vec::new(),
                timeout_secs: None,
            },
        },
        resource_requirements: requirement(cpu, memory),
    }
}

fn allocation_message(e: OrchestrationError) -> String {
    match e {
        OrchestrationError::ResourceAllocationError(m) => m,
        other => panic!("unexpected error {other:?}"),
    }
}

#[test]
fn new_pool_is_empty() {
    let pool: ResourcePool<AgentResource> = ResourcePool::new(ResourceType::Agent);
    assert_eq!(pool.available_count(), 0);
    assert_eq!(pool.allocated_count(), 0);
    assert_eq!(pool.total_count(), 0);
    assert_eq!(*pool.resource_type(), ResourceType::Agent);
}

#[test]
fn allocate_then_release_restores_the_pool() {
    let mut pool = ResourcePool::new(ResourceType::Agent);
    pool.add_resource(agent("a1", &["rust"], 0)).unwrap();
    pool.add_resource(agent("a2", &["go"], 0)).unwrap();
    let got = pool.allocate_resource("a1").unwrap();
    assert_eq!(got.id, "a1");
    assert!(!pool.is_available("a1"));
    assert!(pool.is_allocated("a1"));
    assert_eq!(pool.available_count(), 1);
    assert_eq!(pool.allocated_count(), 1);
    assert_eq!(pool.total_count(), 2);
    pool.release_resource("a1").unwrap();
    assert!(pool.is_available("a1"));
    assert!(!pool.is_allocated("a1"));
    assert_eq!(pool.available_count(), 2);
    assert_eq!(pool.allocated_count(), 0);
}

#[test]
fn an_identifier_is_held_until_its_release() {
    let mut pool = ResourcePool::new(ResourceType::Agent);
    pool.add_resource(agent("a1", &["rust"], 0)).unwrap();
    pool.add_resource(agent("a2", &["go"], 0)).unwrap();
    pool.allocate_resource("a1").unwrap();
    pool.allocate_resource("a2").unwrap();
    assert!(pool.allocate_resource("a1").is_err());
    pool.release_resource("a2").unwrap();
    pool.release_resource("a2").unwrap();
    for id in ["a1", "a2", "a3"] {
        assert!(!(pool.is_available(id) && pool.is_allocated(id)));
    }
    assert!(pool.is_allocated("a1"));
    assert!(!pool.is_allocated("a2"));
    assert!(pool.is_available("a2"));
    assert_eq!(pool.total_count(), 2);
}

#[test]
fn allocating_an_unknown_resource_fails() {
    let mut pool: ResourcePool<AgentResource> = ResourcePool::new(ResourceType::Agent);
    let err = pool.allocate_resource("ghost").err().unwrap();
    assert_eq!(err.message(), "Resource allocation failed: Resource not available: ghost");
}

#[test]
fn releasing_an_unallocated_resource_changes_nothing() {
    let mut pool = ResourcePool::new(ResourceType::Agent);
    pool.add_resource(agent("a1", &[], 0)).unwrap();
    pool.release_resource("a1").unwrap();
    pool.release_resource("nobody").unwrap();
    assert_eq!(pool.available_count(), 1);
    assert_eq!(pool.allocated_count(), 0);
}

#[test]
fn adding_an_existing_id_replaces_it() {
    let mut pool = ResourcePool::new(ResourceType::Agent);
    pool.add_resource(agent("a1", &["x"], 0)).unwrap();
    pool.add_resource(agent("a1", &["y"], 0)).unwrap();
    assert_eq!(pool.available_count(), 1);
    let listed = pool.get_available_resources();
    assert_eq!(listed[0].skill_names, vec!["y".to_string()]);
}

#[test]
fn round_robin_cycles_through_the_pool() {
    let mut pool = ResourcePool::new(ResourceType::Agent);
    pool.add_resource(agent("a1", &[], 0)).unwrap();
    pool.add_resource(agent("a2", &[], 0)).unwrap();
    pool.add_resource(agent("a3", &[], 0)).unwrap();
    let mut rr = RoundRobinStrategy::new();
    let req = agent_requirement(&[]);
    let ids: Vec<String> = (0..4).map(|_| rr.allocate_agent(&req, &pool).unwrap().id).collect();
    assert_eq!(ids, vec!["a1", "a2", "a3", "a1"]);
}

#[test]
fn round_robin_index_on_empty_pool_is_zero() {
    let mut rr = RoundRobinStrategy::new();
    assert_eq!(rr.get_next_index(0), 0);
    assert_eq!(rr.get_next_index(2), 0);
    assert_eq!(rr.get_next_index(2), 1);
    assert_eq!(rr.get_next_index(2), 0);
}

#[test]
fn round_robin_on_empty_pools_reports_the_kind() {
    let mut rr = RoundRobinStrategy::new();
    let agents: ResourcePool<AgentResource> = ResourcePool::new(ResourceType::Agent);
    let llms: ResourcePool<LLMResource> = ResourcePool::new(ResourceType::LLM);
    let e = rr.allocate_agent(&agent_requirement(&[]), &agents).err().unwrap();
    assert_eq!(allocation_message(e), "No agents available");
    let req = LLMRequirement { provider: "p".to_string(), model: "m".to_string(), estimated_tokens: 10 };
    let e = rr.allocate_llm(&req, &llms).err().unwrap();
    assert_eq!(allocation_message(e), "No LLM instances available");
}

#[test]
fn capability_strategy_picks_the_first_agent_with_every_skill() {
    let mut pool = ResourcePool::new(ResourceType::Agent);
    pool.add_resource(agent("a1", &["rust"], 0)).unwrap();
    pool.add_resource(agent("a2", &["rust", "sql"], 0)).unwrap();
    pool.add_resource(agent("a3", &["sql", "rust"], 0)).unwrap();
    let s = CapabilityBasedStrategy::new();
    let got = s.allocate_agent(&agent_requirement(&["sql", "rust"]), &pool).unwrap();
    assert_eq!(got.id, "a2");
    let any = s.allocate_agent(&agent_requirement(&[]), &pool).unwrap();
    assert_eq!(any.id, "a1");
}

#[test]
fn capability_strategy_reports_missing_skills() {
    let mut pool = ResourcePool::new(ResourceType::Agent);
    pool.add_resource(agent("a1", &["rust"], 0)).unwrap();
    let s = CapabilityBasedStrategy::new();
    let e = s.allocate_agent(&agent_requirement(&["cobol"]), &pool).err().unwrap();
    assert_eq!(allocation_message(e), "No agent available with required capabilities: [\"cobol\"]");
}

#[test]
fn capability_strategy_takes_the_first_llm() {
    let mut pool = ResourcePool::new(ResourceType::LLM);
    pool.add_resource(llm("l1")).unwrap();
    pool.add_resource(llm("l2")).unwrap();
    let s = CapabilityBasedStrategy::new();
    let req = LLMRequirement { provider: "p".to_string(), model: "m".to_string(), estimated_tokens: 1 };
    assert_eq!(s.allocate_llm(&req, &pool).unwrap().id, "l1");
}

#[test]
fn load_balancing_picks_the_first_least_used() {
    let mut pool = ResourcePool::new(ResourceType::Agent);
    pool.add_resource(agent("a1", &[], 5)).unwrap();
    pool.add_resource(agent("a2", &[], 2)).unwrap();
    pool.add_resource(agent("a3", &[], 2)).unwrap();
    let s = LoadBalancedStrategy::new();
    assert_eq!(s.allocate_agent(&agent_requirement(&[]), &pool).unwrap().id, "a2");
}

#[test]
fn load_balancing_on_an_empty_pool_fails() {
    let pool: ResourcePool<AgentResource> = ResourcePool::new(ResourceType::Agent);
    let s = LoadBalancedStrategy::new();
    let e = s.allocate_agent(&agent_requirement(&[]), &pool).err().unwrap();
    assert_eq!(allocation_message(e), "No agents available");
}

#[test]
fn priority_strategy_fits_tasks_to_executors() {
    let mut pool = ResourcePool::new(ResourceType::Task);
    pool.add_resource(task_resource("small", Some(1), Some(512))).unwrap();
    pool.add_resource(task_resource("big", Some(8), Some(8192))).unwrap();
    pool.add_resource(task_resource("open", None, None)).unwrap();
    let s = PriorityBasedStrategy::new();
    assert_eq!(s.allocate_task(&task_requirement(Some(4), Some(1024)), &pool).unwrap().id, "big");
    assert_eq!(s.allocate_task(&task_requirement(None, None), &pool).unwrap().id, "small");
    assert_eq!(s.allocate_task(&task_requirement(Some(64), Some(1 << 40)), &pool).unwrap().id, "open");
}

#[test]
fn priority_strategy_reports_no_fit() {
    let mut pool = ResourcePool::new(ResourceType::Task);
    pool.add_resource(task_resource("small", Some(1), Some(512))).unwrap();
    let s = PriorityBasedStrategy::new();
    let e = s.allocate_task(&task_requirement(Some(2), None), &pool).err().unwrap();
    assert_eq!(allocation_message(e), "No suitable task resources available for the given requirements");
}

#[test]
fn tracker_counts_and_peaks() {
    let mut t = ResourceUsageTracker::new();
    let two = AllocationCounts { agents: 2, llm_instances: 1, tasks: 0, workflows: 3 };
    let one = AllocationCounts { agents: 1, llm_instances: 0, tasks: 4, workflows: 0 };
    t.record_allocation(&two);
    t.record_allocation(&one);
    assert_eq!(t.total_allocations(), 2);
    assert_eq!(t.total_active_resources(), 11);
    t.record_deallocation(&two);
    let u = t.get_utilisation();
    assert_eq!((u.active_agents, u.active_llm_instances, u.active_tasks, u.active_workflows), (1, 0, 4, 0));
    assert_eq!(u.total_deallocations, 1);
    let p = t.get_peak_usage();
    assert_eq!((p.peak_agents, p.peak_llm_instances, p.peak_tasks, p.peak_workflows), (3, 1, 4, 3));
    t.record_deallocation(&two);
    assert_eq!(t.get_utilisation().active_agents, 0);
    t.reset_statistics();
    assert_eq!(t.total_allocations(), 0);
    assert_eq!(t.get_peak_usage().peak_agents, 0);
}
