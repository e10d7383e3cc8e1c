use vstd::prelude::*;
use crate::orchestration::flow::ResourceLimits;

verus! {

/// Where sessions, checkpoints and logs are stored.
#[derive(Debug, Clone)]
pub struct StorageConfig {
    pub session_storage_path: Option<String>,
    pub checkpoint_storage_path: Option<String>,
    pub log_storage_path: Option<String>,
}

/// What the coordinator watches and records.
#[derive(Debug, Clone, Copy)]
pub struct MonitoringConfig {
    pub enable_performance_tracking: bool,
    pub enable_resource_monitoring: bool,
    pub enable_detailed_logging: bool,
    pub metrics_collection_interval_secs: u64,
}

/// How the orchestration coordinator runs.
#[derive(Debug, Clone)]
pub struct OrchestrationConfig {
    pub max_concurrent_sessions: u32,
    pub default_gas_limit: u64,
    pub session_timeout_secs: u64,
    pub enable_persistence: bool,
    pub storage_config: StorageConfig,
    pub resource_limits: ResourceLimits,
    pub monitoring_config: MonitoringConfig,
}

impl Default for OrchestrationConfig {
    fn default() -> (c: Self)
        ensures
            c.max_concurrent_sessions == 100,
            c.default_gas_limit == 1_000_000,
            c.session_timeout_secs == 3600,
            c.enable_persistence,
            c.storage_config.session_storage_path matches Some(p) && p@ == "./orchestration/sessions"@,
            c.storage_config.checkpoint_storage_path matches Some(p) && p@ == "./orchestration/checkpoints"@,
            c.storage_config.log_storage_path matches Some(p) && p@ == "./orchestration/logs"@,
            c.resource_limits.max_agents_per_session == 50,
            c.resource_limits.max_llm_instances_per_session == 10,
            c.resource_limits.max_tasks_per_session == 100,
            c.resource_limits.max_memory_mb_per_session == 8192,
            c.resource_limits.max_cpu_cores_per_session == 8,
            c.monitoring_config.enable_performance_tracking,
            c.monitoring_config.enable_resource_monitoring,
            !c.monitoring_config.enable_detailed_logging,
            c.monitoring_config.metrics_collection_interval_secs == 60,
    {
        OrchestrationConfig {
            max_concurrent_sessions: 100,
            default_gas_limit: 1_000_000,
            session_timeout_secs: 3600,
            enable_persistence: true,
            storage_config: StorageConfig {
                session_storage_path: Some(String::from_str("./orchestration/sessions")),
                checkpoint_storage_path: Some(String::from_str("./orchestration/checkpoints")),
                log_storage_path: Some(String::from_str("./orchestration/logs")),
            },
            resource_limits: ResourceLimits {
                max_agents_per_session: 50,
                max_llm_instances_per_session: 10,
                max_tasks_per_session: 100,
                max_memory_mb_per_session: 8192,
                max_cpu_cores_per_session: 8,
            },
            monitoring_config: MonitoringConfig {
                enable_performance_tracking: true,
                enable_resource_monitoring: true,
                enable_detailed_logging: false,
                metrics_collection_interval_secs: 60,
            },
        }
    }
}

/// The kinds of orchestration event a subscriber can ask for.
#[derive(Debug, Clone, Copy, PartialEq, Eq, Structural)]
pub enum EventType {
    CoordinatorInitialised,
    SessionStarted,
    SessionCompleted,
    BlockExecutionStarted,
    BlockExecutionCompleted,
    AgentInteractionCompleted,
    LLMProcessingCompleted,
    TaskExecutionCompleted,
    ResourceAllocated,
    ResourceReleased,
    ErrorOccurred,
    PerformanceMetric,
    StateChanged,
    All,
}

/// The state of a session as events report it.
#[derive(Debug, Clone, Copy, PartialEq, Eq, Structural)]
pub enum SessionStateStatus {
    Pending,
    Running,
    AwaitingInput,
    Completed,
    Failed,
}

/// The event handler that writes events to the log.
pub struct LoggerEventHandler;

} // verus!
