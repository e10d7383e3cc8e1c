//! Plain descriptions of agents, teams and the agent registry.

pub mod search;

use vstd::prelude::*;
use crate::keyed::StringTable;
use crate::text::concat_str;

verus! {

/// Which of an agent's performance thresholds are met.
#[derive(Debug, Clone, Copy, PartialEq, Eq, Structural)]
pub struct PerformanceMatch {
    pub success_rate_met: bool,
    pub quality_score_met: bool,
    pub collaboration_score_met: bool,
    pub completion_time_met: bool,
}

/// How a team of agents is organised.
pub struct TeamStructure {
    pub team_lead: Option<String>,
    pub collaboration_patterns: Vec<CollaborationPattern>,
    pub role_dependencies: StringTable<Vec<String>>,
    pub communication_structure: CommunicationStructure,
}

/// A way some agents of a team work together.
#[derive(Debug, Clone)]
pub struct CollaborationPattern {
    pub agents: Vec<String>,
    pub pattern_type: CollaborationPatternType,
    pub description: String,
}

/// The kinds of collaboration between agents.
#[derive(Debug, Clone, Copy, PartialEq, Eq, Structural)]
pub enum CollaborationPatternType {
    Sequential,
    Parallel,
    ReviewValidation,
    Ideation,
    Consensus,
    Iterative,
}

/// Who talks to whom in a team.
#[derive(Debug, Clone)]
pub struct CommunicationStructure {
    pub hub_agent: Option<String>,
    pub direct_pairs: Vec<(String, String)>,
    pub broadcast_triggers: Vec<String>,
}

/// How the agent registry keeps its agents.
#[derive(Debug, Clone)]
pub struct RegistryConfig {
    pub persistent: bool,
    pub storage_path: Option<String>,
    pub max_in_memory: usize,
}

/// How many agents the system knows, runs and has free.
#[derive(Debug, Clone, Copy, PartialEq, Eq, Structural)]
pub struct AgentSystemStatistics {
    pub total_agents: usize,
    pub active_agents: usize,
    pub available_agents: usize,
}

/// The broad state of an agent.
#[derive(Debug, Clone, Copy, PartialEq, Eq, Structural)]
pub enum StatusCategory {
    Available,
    Busy,
    Offline,
    Error,
    Maintenance,
    Deactivated,
}

/// What an agent is doing.
#[derive(Debug, Clone)]
pub enum AgentStatus {
    Available,
    Busy { task_id: String, started_at: u64 },
    Offline { reason: String },
    Error { error: String, recoverable: bool },
    Maintenance,
    Deactivated,
}

/// The broad state a status falls under.
pub open spec fn category_of(s: AgentStatus) -> StatusCategory {
    match s {
        AgentStatus::Available => StatusCategory::Available,
        AgentStatus::Busy { .. } => StatusCategory::Busy,
        AgentStatus::Offline { .. } => StatusCategory::Offline,
        AgentStatus::Error { .. } => StatusCategory::Error,
        AgentStatus::Maintenance => StatusCategory::Maintenance,
        AgentStatus::Deactivated => StatusCategory::Deactivated,
    }
}

/// The sentence that describes a status.
pub open spec fn status_description(s: AgentStatus) -> Seq<char> {
    match s {
        AgentStatus::Available => "Available for tasks"@,
        AgentStatus::Busy { task_id, .. } => "Executing task: "@ + task_id@,
        AgentStatus::Offline { reason } => "Offline: "@ + reason@,
        AgentStatus::Error { error, recoverable } => if recoverable {
            "Recoverable error: "@ + error@
        } else {
            "Fatal error: "@ + error@
        },
        AgentStatus::Maintenance => "Under maintenance"@,
        AgentStatus::Deactivated => "Deactivated"@,
    }
}

impl AgentStatus {
    /// Whether the agent reports an error.
    pub fn is_error(&self) -> (b: bool)
        ensures
            b == (*self is Error),
    {
        match self {
            AgentStatus::Error { .. } => true,
            _ => false,
        }
    }

    /// Whether the agent can work: available or busy.
    pub fn is_operational(&self) -> (b: bool)
        ensures
            b == (*self is Available || *self is Busy),
    {
        match self {
            AgentStatus::Available => true,
            AgentStatus::Busy { .. } => true,
            _ => false,
        }
    }

    /// The sentence that describes the status, as [`status_description`] states.
    pub fn description(&self) -> (r: String)
        ensures
            r@ == status_description(*self),
    {
        match self {
            AgentStatus::Available => String::from_str("Available for tasks"),
            AgentStatus::Busy { task_id, .. } => concat_str("Executing task: ", task_id.as_str()),
            AgentStatus::Offline { reason } => concat_str("Offline: ", reason.as_str()),
            AgentStatus::Error { error, recoverable } => if *recoverable {
                concat_str("Recoverable error: ", error.as_str())
            } else {
                concat_str("Fatal error: ", error.as_str())
            },
            AgentStatus::Maintenance => String::from_str("Under maintenance"),
            AgentStatus::Deactivated => String::from_str("Deactivated"),
        }
    }

    /// The broad state the status falls under.
    pub fn category(&self) -> (c: StatusCategory)
        ensures
            c == category_of(*self),
    {
        match self {
            AgentStatus::Available => StatusCategory::Available,
            AgentStatus::Busy { .. } => StatusCategory::Busy,
            AgentStatus::Offline { .. } => StatusCategory::Offline,
            AgentStatus::Error { .. } => StatusCategory::Error,
            AgentStatus::Maintenance => StatusCategory::Maintenance,
            AgentStatus::Deactivated => StatusCategory::Deactivated,
        }
    }
}

/// Two statuses are equal when they are of the same kind, whatever they carry.
impl PartialEq for AgentStatus {
    fn eq(&self, other: &Self) -> (r: bool) {
        self.category() == other.category()
    }
}

impl vstd::std_specs::cmp::PartialEqSpecImpl for AgentStatus {
    open spec fn obeys_eq_spec() -> bool {
        true
    }

    open spec fn eq_spec(&self, other: &Self) -> bool {
        category_of(*self) == category_of(*other)
    }
}

impl Eq for AgentStatus {}

/// How registry search results are ordered.
#[derive(Debug, Clone, Copy, PartialEq, Eq, Structural)]
pub enum SortCriteria {
    SuccessRate,
    Quality,
    Collaboration,
    Innovation,
    CompletionTime,
    TaskCount,
    CreatedAt,
    UpdatedAt,
}

/// How far an agent is trusted at run time.
#[derive(Debug, Clone, Copy, PartialEq, Eq, Structural)]
pub enum TrustLevel {
    Restricted,
    Standard,
    Elevated,
    Privileged,
}

/// What an agent may do while it runs.
#[derive(Debug, Clone)]
pub struct RuntimeCapabilities {
    pub can_create_subtasks: bool,
    pub can_modify_workflow: bool,
    pub can_access_external_apis: bool,
    pub can_delegate_tasks: bool,
    pub max_concurrent_executions: usize,
    pub trusted_execution_level: TrustLevel,
    pub ffi_permissions: Vec<String>,
    pub gas_limit: u64,
    pub execution_timeout_secs: u64,
}

impl Default for RuntimeCapabilities {
    /// The most restricted capabilities: nothing beyond one execution at a
    /// time, progress logging as the only foreign call, ten thousand units of
    /// gas and a five-minute timeout.
    fn default() -> (c: Self)
        ensures
            !c.can_create_subtasks,
            !c.can_modify_workflow,
            !c.can_access_external_apis,
            !c.can_delegate_tasks,
            c.max_concurrent_executions == 1,
            c.trusted_execution_level == TrustLevel::Restricted,
            c.ffi_permissions@.len() == 1,
            c.ffi_permissions@[0]@ == "log_progress"@,
            c.gas_limit == 10000,
            c.execution_timeout_secs == 300,
    {
        let mut permissions: Vec<String> = Vec::new();
        permissions.push(String::from_str("log_progress"));
        RuntimeCapabilities {
            can_create_subtasks: false,
            can_modify_workflow: false,
            can_access_external_apis: false,
            can_delegate_tasks: false,
            max_concurrent_executions: 1,
            trusted_execution_level: TrustLevel::Restricted,
            ffi_permissions: permissions,
            gas_limit: 10000,
            execution_timeout_secs: 300,
        }
    }
}

/// How an agent came to be.
#[derive(Debug, Clone)]
pub enum GenerationMethod {
    LLMGenerated { model: String, prompt_version: String },
    Manual { creator: String },
    Cloned { source_agent_id: String },
    Template { template_id: String },
}

/// How agents of a team work together.
#[derive(Debug, Clone, Copy, PartialEq, Eq, Structural)]
pub enum CollaborationStyle {
    Consensus,
    Competitive,
    Independent,
    Hierarchical,
    Specialised,
}

/// How a team settles disagreements.
#[derive(Debug, Clone, Copy, PartialEq, Eq, Structural)]
pub enum ConflictResolutionStyle {
    Compromise,
    Evidence,
    Democratic,
    Authoritative,
    Avoidance,
}

/// What an agent needs of the team it joins.
#[derive(Debug)]
pub struct CollaborationRequirements {
    pub team_size_range: (usize, usize),
    pub preferred_style: CollaborationStyle,
    pub complementary_skills: Vec<String>,
    pub conflict_resolution: ConflictResolutionStyle,
}

/// Where something stands in a source file.
#[derive(Debug, Clone)]
pub struct SourceLocation {
    pub file: String,
    pub line: u32,
    pub column: u32,
}

/// The severity of a log record.
#[derive(Debug, Clone, Copy, PartialEq, Eq, Structural)]
pub enum LogLevel {
    Debug,
    Info,
    Warn,
    Error,
}

} // verus!
