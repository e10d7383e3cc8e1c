use vstd::prelude::*;
use crate::text::{concat_str, debug_str, push_decimal_u64, push_str_chars, str_debug, string_from_chars, decimal_nat};

verus! {

/// Which kind of failure an [`OrchestrationError`] reports.
#[derive(Debug, Clone, Copy, PartialEq, Eq, Structural)]
pub enum OrchestrationErrorKind {
    Session,
    ResourceAllocation,
    AgentInteraction,
    LLMProcessing,
    TaskExecution,
    WorkflowExecution,
    Adapter,
    Configuration,
    Validation,
    Timeout,
    Event,
}

/// A failure of the orchestration layer, with its detail text.
#[derive(Debug, Clone)]
pub enum OrchestrationError {
    SessionError(String),
    ResourceAllocationError(String),
    AgentInteractionError(String),
    LLMProcessingError(String),
    TaskExecutionError(String),
    WorkflowExecutionError(String),
    AdapterError(String),
    ConfigurationError(String),
    ValidationError(String),
    TimeoutError(String),
    EventError(String),
}

impl View for OrchestrationError {
    type V = (OrchestrationErrorKind, Seq<char>);

    open spec fn view(&self) -> (OrchestrationErrorKind, Seq<char>) {
        match self {
            OrchestrationError::SessionError(s) => (OrchestrationErrorKind::Session, s@),
            OrchestrationError::ResourceAllocationError(s) => (OrchestrationErrorKind::ResourceAllocation, s@),
            OrchestrationError::AgentInteractionError(s) => (OrchestrationErrorKind::AgentInteraction, s@),
            OrchestrationError::LLMProcessingError(s) => (OrchestrationErrorKind::LLMProcessing, s@),
            OrchestrationError::TaskExecutionError(s) => (OrchestrationErrorKind::TaskExecution, s@),
            OrchestrationError::WorkflowExecutionError(s) => (OrchestrationErrorKind::WorkflowExecution, s@),
            OrchestrationError::AdapterError(s) => (OrchestrationErrorKind::Adapter, s@),
            OrchestrationError::ConfigurationError(s) => (OrchestrationErrorKind::Configuration, s@),
            OrchestrationError::ValidationError(s) => (OrchestrationErrorKind::Validation, s@),
            OrchestrationError::TimeoutError(s) => (OrchestrationErrorKind::Timeout, s@),
            OrchestrationError::EventError(s) => (OrchestrationErrorKind::Event, s@),
        }
    }
}

/// The text that starts the message of each kind of orchestration error.
pub open spec fn orchestration_prefix(kind: OrchestrationErrorKind) -> Seq<char> {
    match kind {
        OrchestrationErrorKind::Session => "Session error: "@,
        OrchestrationErrorKind::ResourceAllocation => "Resource allocation failed: "@,
        OrchestrationErrorKind::AgentInteraction => "Agent interaction failed: "@,
        OrchestrationErrorKind::LLMProcessing => "LLM processing failed: "@,
        OrchestrationErrorKind::TaskExecution => "Task execution failed: "@,
        OrchestrationErrorKind::WorkflowExecution => "Workflow execution failed: "@,
        OrchestrationErrorKind::Adapter => "Adapter error: "@,
        OrchestrationErrorKind::Configuration => "Configuration error: "@,
        OrchestrationErrorKind::Validation => "Validation error: "@,
        OrchestrationErrorKind::Timeout => "Timeout error: "@,
        OrchestrationErrorKind::Event => "Event error: "@,
    }
}

impl OrchestrationError {
    /// The message this error is displayed with: its kind's prefix, then its detail.
    pub fn message(&self) -> (m: String)
        ensures
            m@ == orchestration_prefix(self@.0) + self@.1,
    {
        match self {
            OrchestrationError::SessionError(s) => concat_str("Session error: ", s.as_str()),
            OrchestrationError::ResourceAllocationError(s) => concat_str("Resource allocation failed: ", s.as_str()),
            OrchestrationError::AgentInteractionError(s) => concat_str("Agent interaction failed: ", s.as_str()),
            OrchestrationError::LLMProcessingError(s) => concat_str("LLM processing failed: ", s.as_str()),
            OrchestrationError::TaskExecutionError(s) => concat_str("Task execution failed: ", s.as_str()),
            OrchestrationError::WorkflowExecutionError(s) => concat_str("Workflow execution failed: ", s.as_str()),
            OrchestrationError::AdapterError(s) => concat_str("Adapter error: ", s.as_str()),
            OrchestrationError::ConfigurationError(s) => concat_str("Configuration error: ", s.as_str()),
            OrchestrationError::ValidationError(s) => concat_str("Validation error: ", s.as_str()),
            OrchestrationError::TimeoutError(s) => concat_str("Timeout error: ", s.as_str()),
            OrchestrationError::EventError(s) => concat_str("Event error: ", s.as_str()),
        }
    }
}

/// A failure reported by one of the service adapters.
#[derive(Debug)]
pub enum AdapterError {
    ServiceUnavailable(String),
    ConfigurationError(String),
    ExecutionFailed(String),
    TimeoutError { timeout_secs: u64 },
    InvalidInput(String),
    ResourceError(String),
    AgentOperationFailed(String),
    ResourceNotFound(String),
    EventError(String),
    TaskExecutionFailed(String),
    LLMProcessingFailed(String),
}

/// The abstract content of an [`AdapterError`].
pub enum AdapterErrorView {
    ServiceUnavailable(Seq<char>),
    ConfigurationError(Seq<char>),
    ExecutionFailed(Seq<char>),
    TimeoutError(u64),
    InvalidInput(Seq<char>),
    ResourceError(Seq<char>),
    AgentOperationFailed(Seq<char>),
    ResourceNotFound(Seq<char>),
    EventError(Seq<char>),
    TaskExecutionFailed(Seq<char>),
    LLMProcessingFailed(Seq<char>),
}

impl View for AdapterError {
    type V = AdapterErrorView;

    open spec fn view(&self) -> AdapterErrorView {
        match self {
            AdapterError::ServiceUnavailable(s) => AdapterErrorView::ServiceUnavailable(s@),
            AdapterError::ConfigurationError(s) => AdapterErrorView::ConfigurationError(s@),
            AdapterError::ExecutionFailed(s) => AdapterErrorView::ExecutionFailed(s@),
            AdapterError::TimeoutError { timeout_secs } => AdapterErrorView::TimeoutError(*timeout_secs),
            AdapterError::InvalidInput(s) => AdapterErrorView::InvalidInput(s@),
            AdapterError::ResourceError(s) => AdapterErrorView::ResourceError(s@),
            AdapterError::AgentOperationFailed(s) => AdapterErrorView::AgentOperationFailed(s@),
            AdapterError::ResourceNotFound(s) => AdapterErrorView::ResourceNotFound(s@),
            AdapterError::EventError(s) => AdapterErrorView::EventError(s@),
            AdapterError::TaskExecutionFailed(s) => AdapterErrorView::TaskExecutionFailed(s@),
            AdapterError::LLMProcessingFailed(s) => AdapterErrorView::LLMProcessingFailed(s@),
        }
    }
}

/// The message an adapter error is displayed with.
pub open spec fn adapter_message(e: AdapterErrorView) -> Seq<char> {
    match e {
        AdapterErrorView::ServiceUnavailable(s) => "Service not available: "@ + s,
        AdapterErrorView::ConfigurationError(s) => "Configuration error: "@ + s,
        AdapterErrorView::ExecutionFailed(s) => "Execution failed: "@ + s,
        AdapterErrorView::TimeoutError(t) =>
            "Timeout: operation timed out after "@ + decimal_nat(t as nat) + " seconds"@,
        AdapterErrorView::InvalidInput(s) => "Invalid input: "@ + s,
        AdapterErrorView::ResourceError(s) => "Resource error: "@ + s,
        AdapterErrorView::AgentOperationFailed(s) => "Agent operation failed: "@ + s,
        AdapterErrorView::ResourceNotFound(s) => "Resource not found: "@ + s,
        AdapterErrorView::EventError(s) => "Event error: "@ + s,
        AdapterErrorView::TaskExecutionFailed(s) => "Task execution failed: "@ + s,
        AdapterErrorView::LLMProcessingFailed(s) => "LLM processing failed: "@ + s,
    }
}

/// The debugging text of a variant with one text field: its name, then the quoted field in brackets.
pub open spec fn debug_tuple(name: Seq<char>, s: Seq<char>) -> Seq<char> {
    name + "("@ + str_debug(s) + ")"@
}

/// The debugging text of an adapter error: the variant's name, then its field.
pub open spec fn adapter_debug(e: AdapterErrorView) -> Seq<char> {
    match e {
        AdapterErrorView::ServiceUnavailable(s) => debug_tuple("ServiceUnavailable"@, s),
        AdapterErrorView::ConfigurationError(s) => debug_tuple("ConfigurationError"@, s),
        AdapterErrorView::ExecutionFailed(s) => debug_tuple("ExecutionFailed"@, s),
        AdapterErrorView::TimeoutError(t) => "TimeoutError { timeout_secs: "@ + decimal_nat(t as nat) + " }"@,
        AdapterErrorView::InvalidInput(s) => debug_tuple("InvalidInput"@, s),
        AdapterErrorView::ResourceError(s) => debug_tuple("ResourceError"@, s),
        AdapterErrorView::AgentOperationFailed(s) => debug_tuple("AgentOperationFailed"@, s),
        AdapterErrorView::ResourceNotFound(s) => debug_tuple("ResourceNotFound"@, s),
        AdapterErrorView::EventError(s) => debug_tuple("EventError"@, s),
        AdapterErrorView::TaskExecutionFailed(s) => debug_tuple("TaskExecutionFailed"@, s),
        AdapterErrorView::LLMProcessingFailed(s) => debug_tuple("LLMProcessingFailed"@, s),
    }
}

fn wrap_debug(name: &str, s: &String) -> (r: String)
    ensures
        r@ == debug_tuple(name@, s@),
{
    let mut out: Vec<char> = Vec::new();
    push_str_chars(&mut out, name);
    push_str_chars(&mut out, "(");
    let d = debug_str(s.as_str());
    push_str_chars(&mut out, d.as_str());
    push_str_chars(&mut out, ")");
    proof {
        assert(out@ =~= name@ + "("@ + str_debug(s@) + ")"@);
    }
    string_from_chars(out.as_slice())
}

fn around_decimal(before: &str, n: u64, after: &str) -> (r: String)
    ensures
        r@ == before@ + decimal_nat(n as nat) + after@,
{
    let mut out: Vec<char> = Vec::new();
    push_str_chars(&mut out, before);
    push_decimal_u64(n, &mut out);
    push_str_chars(&mut out, after);
    string_from_chars(out.as_slice())
}

impl AdapterError {
    /// The message this error is displayed with.
    pub fn message(&self) -> (m: String)
        ensures
            m@ == adapter_message(self@),
    {
        match self {
            AdapterError::ServiceUnavailable(s) => concat_str("Service not available: ", s.as_str()),
            AdapterError::ConfigurationError(s) => concat_str("Configuration error: ", s.as_str()),
            AdapterError::ExecutionFailed(s) => concat_str("Execution failed: ", s.as_str()),
            AdapterError::TimeoutError { timeout_secs } =>
                around_decimal("Timeout: operation timed out after ", *timeout_secs, " seconds"),
            AdapterError::InvalidInput(s) => concat_str("Invalid input: ", s.as_str()),
            AdapterError::ResourceError(s) => concat_str("Resource error: ", s.as_str()),
            AdapterError::AgentOperationFailed(s) => concat_str("Agent operation failed: ", s.as_str()),
            AdapterError::ResourceNotFound(s) => concat_str("Resource not found: ", s.as_str()),
            AdapterError::EventError(s) => concat_str("Event error: ", s.as_str()),
            AdapterError::TaskExecutionFailed(s) => concat_str("Task execution failed: ", s.as_str()),
            AdapterError::LLMProcessingFailed(s) => concat_str("LLM processing failed: ", s.as_str()),
        }
    }

    /// The debugging text of this error, as its derived `Debug` writes it.
    pub fn debug_text(&self) -> (m: String)
        ensures
            m@ == adapter_debug(self@),
    {
        match self {
            AdapterError::ServiceUnavailable(s) => wrap_debug("ServiceUnavailable", s),
            AdapterError::ConfigurationError(s) => wrap_debug("ConfigurationError", s),
            AdapterError::ExecutionFailed(s) => wrap_debug("ExecutionFailed", s),
            AdapterError::TimeoutError { timeout_secs } =>
                around_decimal("TimeoutError { timeout_secs: ", *timeout_secs, " }"),
            AdapterError::InvalidInput(s) => wrap_debug("InvalidInput", s),
            AdapterError::ResourceError(s) => wrap_debug("ResourceError", s),
            AdapterError::AgentOperationFailed(s) => wrap_debug("AgentOperationFailed", s),
            AdapterError::ResourceNotFound(s) => wrap_debug("ResourceNotFound", s),
            AdapterError::EventError(s) => wrap_debug("EventError", s),
            AdapterError::TaskExecutionFailed(s) => wrap_debug("TaskExecutionFailed", s),
            AdapterError::LLMProcessingFailed(s) => wrap_debug("LLMProcessingFailed", s),
        }
    }
}

/// The orchestration error an adapter error becomes: agent failures become agent
/// interaction errors, unavailable or missing resources become allocation errors,
/// and any other error becomes an adapter error holding its debugging text.
pub open spec fn orchestration_from_adapter(e: AdapterErrorView) -> (OrchestrationErrorKind, Seq<char>) {
    match e {
        AdapterErrorView::AgentOperationFailed(s) => (OrchestrationErrorKind::AgentInteraction, s),
        AdapterErrorView::ServiceUnavailable(s) => (OrchestrationErrorKind::ResourceAllocation, s),
        AdapterErrorView::ResourceNotFound(s) => (OrchestrationErrorKind::ResourceAllocation, s),
        _ => (OrchestrationErrorKind::Adapter, adapter_debug(e)),
    }
}

impl OrchestrationError {
    /// Converts an adapter error, as [`orchestration_from_adapter`] states.
    pub fn from_adapter(error: AdapterError) -> (r: OrchestrationError)
        ensures
            r@ == orchestration_from_adapter(error@),
    {
        match error {
            AdapterError::AgentOperationFailed(msg) => OrchestrationError::AgentInteractionError(msg),
            AdapterError::ServiceUnavailable(msg) => OrchestrationError::ResourceAllocationError(msg),
            AdapterError::ResourceNotFound(msg) => OrchestrationError::ResourceAllocationError(msg),
            other => OrchestrationError::AdapterError(other.debug_text()),
        }
    }
}

} // verus!
