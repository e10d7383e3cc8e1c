use vstd::prelude::*;

verus! {

/// How soon a selected agent must be free.
#[derive(Debug, Clone, Copy, PartialEq, Eq, Structural)]
pub enum AvailabilityRequirement {
    Immediate,
    WithinSeconds(u64),
    Flexible,
}

/// How collaborating agents coordinate.
#[derive(Debug, Clone, Copy, PartialEq, Eq, Structural)]
pub enum CoordinationStrategy {
    Sequential,
    Parallel,
    Consensus,
    Competition,
}

/// The kind of analysis an agent is asked for.
#[derive(Debug, Clone)]
pub enum AnalysisType {
    Sentiment,
    Classification,
    Extraction,
    Summarization,
    Custom(String),
}

/// How deep an analysis goes.
#[derive(Debug, Clone, Copy, PartialEq, Eq, Structural)]
pub enum AnalysisDepth {
    Surface,
    Moderate,
    Deep,
    Exhaustive,
}

/// Whether an interaction is waited for.
#[derive(Debug, Clone, Copy, PartialEq, Eq, Structural)]
pub enum ExecutionMode {
    Synchronous,
    Asynchronous,
    Background,
}

/// The urgency of an interaction.
#[derive(Debug, Clone, Copy, PartialEq, Eq, Structural)]
pub enum Priority {
    Low,
    Normal,
    High,
    Critical,
}

/// The urgency of a queued task.
#[derive(Debug, Clone, Copy, PartialEq, Eq, Structural)]
pub enum TaskPriority {
    Low,
    Normal,
    High,
    Critical,
}

/// How an agent interaction is run.
#[derive(Debug, Clone, Copy)]
pub struct InteractionOptions {
    pub timeout_seconds: Option<u64>,
    pub retry_attempts: u32,
    pub priority: Priority,
    pub execution_mode: ExecutionMode,
}

/// The machine resources an execution used.
#[derive(Debug, Clone, Copy)]
pub struct ResourceUsageInfo {
    pub cpu_time_ms: u64,
    pub memory_peak_mb: u64,
    pub network_bytes: u64,
    pub storage_bytes: u64,
}

/// The broad cause of a failed execution.
#[derive(Debug, Clone, Copy, PartialEq, Eq, Structural)]
pub enum ErrorCategory {
    Configuration,
    Resource,
    Network,
    Timeout,
    Validation,
    Internal,
    External,
}

/// A service that an adapter talks to.
pub trait ServiceAdapter {
    fn service_type(&self) -> &'static str;

    fn is_available(&self) -> bool;
}

/// The default largest number of cached entries.
pub const DEFAULT_CACHE_MAX_ENTRIES: usize = 1000;
/// The default lifetime of a cached entry, in seconds.
pub const DEFAULT_CACHE_TTL_SECONDS: u64 = 300;
/// The default longest prompt, in bytes.
pub const DEFAULT_MAX_PROMPT_LENGTH: usize = 50000;
/// The default largest number of retries.
pub const DEFAULT_MAX_RETRY_ATTEMPTS: u32 = 3;
/// The default timeout, in seconds.
pub const DEFAULT_TIMEOUT_SECONDS: u64 = 30;

/// Which cached entry is evicted first.
#[derive(Debug, Clone, Copy, PartialEq, Eq, Structural)]
pub enum EvictionPolicy {
    LRU,
    LFU,
    TTL,
}

/// How an adapter caches results.
#[derive(Debug, Clone, Copy)]
pub struct CacheConfig {
    pub max_entries: usize,
    pub ttl_seconds: u64,
    pub eviction_policy: EvictionPolicy,
}

impl Default for CacheConfig {
    fn default() -> (c: Self)
        ensures
            c.max_entries == DEFAULT_CACHE_MAX_ENTRIES,
            c.ttl_seconds == DEFAULT_CACHE_TTL_SECONDS,
            c.eviction_policy == EvictionPolicy::LRU,
    {
        CacheConfig {
            max_entries: DEFAULT_CACHE_MAX_ENTRIES,
            ttl_seconds: DEFAULT_CACHE_TTL_SECONDS,
            eviction_policy: EvictionPolicy::LRU,
        }
    }
}

/// The limits that adapter input is validated against.
#[derive(Debug, Clone, Copy)]
pub struct ValidationConfig {
    pub max_prompt_length: usize,
    pub max_retry_attempts: u32,
    pub default_timeout_seconds: u64,
    pub max_context_variables: usize,
    pub max_dependency_depth: u32,
}

impl Default for ValidationConfig {
    fn default() -> (c: Self)
        ensures
            c.max_prompt_length == DEFAULT_MAX_PROMPT_LENGTH,
            c.max_retry_attempts == DEFAULT_MAX_RETRY_ATTEMPTS,
            c.default_timeout_seconds == DEFAULT_TIMEOUT_SECONDS,
            c.max_context_variables == 100,
            c.max_dependency_depth == 10,
    {
        ValidationConfig {
            max_prompt_length: DEFAULT_MAX_PROMPT_LENGTH,
            max_retry_attempts: DEFAULT_MAX_RETRY_ATTEMPTS,
            default_timeout_seconds: DEFAULT_TIMEOUT_SECONDS,
            max_context_variables: 100,
            max_dependency_depth: 10,
        }
    }
}

/// What an agent must offer to be selected for an interaction.
#[derive(Debug, Clone)]
pub struct AgentSelectionCriteria {
    pub required_capabilities: Vec<String>,
    pub preferred_tags: Vec<String>,
    pub exclude_busy: bool,
    pub max_concurrent_tasks: Option<u32>,
}

} // verus!
