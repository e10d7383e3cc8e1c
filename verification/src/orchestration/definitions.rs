use vstd::prelude::*;
use crate::keyed::{Duplicate, StringTable};

verus! {

/// A condition under which a failed step is retried.
#[derive(Debug, Clone)]
pub struct RetryCondition {
    pub error_type: String,
    pub should_retry: bool,
}

/// How urgent a task is.
#[derive(Debug, Clone, Copy, PartialEq, Eq, Structural)]
pub enum TaskPriority {
    Low,
    Normal,
    High,
    Critical,
}

/// When a task counts as done or failed.
#[derive(Debug, Clone)]
pub struct CompletionCriteria {
    pub success_conditions: Vec<String>,
    pub failure_conditions: Vec<String>,
    pub timeout_secs: Option<u64>,
}

/// The configuration of a task execution step.
#[derive(Debug, Clone)]
pub struct TaskExecutionConfig {
    pub task_id: String,
    pub priority: TaskPriority,
    pub dependencies: Vec<String>,
    pub completion_criteria: CompletionCriteria,
}

/// How a sub-workflow runs.
#[derive(Debug, Clone, Copy, PartialEq, Eq, Structural)]
pub enum WorkflowExecutionMode {
    Sequential,
    Parallel,
    Adaptive,
}

/// How the results of parallel branches are merged.
#[derive(Debug, Clone)]
pub enum MergeStrategy {
    WaitAll,
    FirstComplete,
    Majority,
    Custom { strategy_name: String },
}

impl Duplicate for MergeStrategy {
    fn duplicate(&self) -> (r: Self) {
        match self {
            MergeStrategy::WaitAll => MergeStrategy::WaitAll,
            MergeStrategy::FirstComplete => MergeStrategy::FirstComplete,
            MergeStrategy::Majority => MergeStrategy::Majority,
            MergeStrategy::Custom { strategy_name } => MergeStrategy::Custom { strategy_name: strategy_name.clone() },
        }
    }
}

/// How soon and with which fallbacks an agent must be available.
#[derive(Debug, Clone)]
pub struct AvailabilityRequirements {
    pub immediate: bool,
    pub max_wait_time_secs: Option<u64>,
    pub backup_options: Vec<String>,
}

/// The machine resources a step needs; an absent figure sets no bound.
#[derive(Debug, Clone)]
pub struct ResourceRequirement {
    pub cpu_cores: Option<u32>,
    pub memory_mb: Option<u64>,
    pub storage_mb: Option<u64>,
    pub network_bandwidth_mbps: Option<u64>,
    pub specialised_hardware: Vec<String>,
}

/// The resources a flow needs, by participant name, and its overall limits.
pub struct ResourceRequirements {
    pub agents: StringTable<ResourceRequirement>,
    pub llm: StringTable<ResourceRequirement>,
    pub tasks: StringTable<ResourceRequirement>,
    pub workflows: StringTable<ResourceRequirement>,
    pub total_limits: ResourceRequirement,
}

/// How a flow is executed.
#[derive(Debug, Clone, Copy)]
pub struct ExecutionConfiguration {
    pub max_parallel_blocks: u32,
    pub default_timeout_secs: u64,
    pub enable_checkpointing: bool,
    pub checkpoint_interval_secs: Option<u64>,
    pub enable_debugging: bool,
    pub performance_monitoring: bool,
}

} // verus!
