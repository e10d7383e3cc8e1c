use vstd::prelude::*;
use crate::keyed::{Duplicate, StringTable};
use crate::orchestration::errors::{OrchestrationError, OrchestrationErrorKind};
use crate::orchestration::flow::{BlockOutline, FlowOutline};
use crate::orchestration::manager::AllocatedResources;
use crate::orchestration::planning::ExecutionPlan;
use crate::runtime::value::JsonDatum;
use crate::text::str_eq;

verus! {

/// `d` is the JSON document `text`, whose identity is its text, with the given truth value.
pub open spec fn is_literal(d: JsonDatum, text: Seq<char>, truthy: bool) -> bool {
    d.text@ == text && d.identity@ == text && d.truthy == truthy
}

/// The JSON `null`.
pub fn null_datum() -> (d: JsonDatum)
    ensures
        is_literal(d, "null"@, false),
{
    JsonDatum { text: String::from_str("null"), identity: String::from_str("null"), truthy: false }
}

/// The empty JSON object.
pub fn empty_object() -> (d: JsonDatum)
    ensures
        is_literal(d, "{}"@, false),
{
    JsonDatum { text: String::from_str("{}"), identity: String::from_str("{}"), truthy: false }
}

/// What a workflow step left: its output and how long it ran.
#[derive(Debug, Clone)]
pub struct WorkflowRecord {
    pub last_result: JsonDatum,
    pub execution_time_ms: u64,
}

impl Duplicate for WorkflowRecord {
    fn duplicate(&self) -> (r: Self) {
        WorkflowRecord { last_result: self.last_result.duplicate(), execution_time_ms: self.execution_time_ms }
    }
}

/// The data a session's blocks read and write: the shared state, the last
/// result of each agent, task and workflow, named variables, and the final result.
#[derive(Debug, Clone)]
pub struct ExecutionContext {
    pub session_id: String,
    pub shared_state: JsonDatum,
    pub agent_results: StringTable<JsonDatum>,
    pub task_results: StringTable<JsonDatum>,
    pub workflow_results: StringTable<WorkflowRecord>,
    pub variables: StringTable<JsonDatum>,
    pub final_result: Option<JsonDatum>,
}

/// Two contexts hold the same data.
pub open spec fn same_context(a: ExecutionContext, b: ExecutionContext) -> bool {
    &&& a.session_id == b.session_id
    &&& a.shared_state == b.shared_state
    &&& a.agent_results.entries() == b.agent_results.entries()
    &&& a.task_results.entries() == b.task_results.entries()
    &&& a.workflow_results.entries() == b.workflow_results.entries()
    &&& a.variables.entries() == b.variables.entries()
    &&& a.final_result == b.final_result
}

/// The name under which a block's input is kept among the variables.
pub open spec fn input_key() -> Seq<char> {
    "input"@
}

impl ExecutionContext {
    /// Every table holds each key once.
    pub open spec fn wf(&self) -> bool {
        &&& self.agent_results.wf()
        &&& self.task_results.wf()
        &&& self.workflow_results.wf()
        &&& self.variables.wf()
    }

    /// `self` is `other` with only the variables replaced by `variables`.
    pub open spec fn with_variables(&self, other: ExecutionContext, variables: Map<Seq<char>, JsonDatum>) -> bool {
        &&& self.wf()
        &&& self.variables.map() == variables
        &&& self.session_id == other.session_id
        &&& self.shared_state == other.shared_state
        &&& self.agent_results == other.agent_results
        &&& self.task_results == other.task_results
        &&& self.workflow_results == other.workflow_results
        &&& self.final_result == other.final_result
    }

    /// A fresh context: the flow's initial state (an empty object when it has
    /// none) and nothing recorded.
    pub fn new(session_id: String, initial_state: Option<JsonDatum>) -> (c: Self)
        ensures
            c.wf(),
            c.session_id == session_id,
            initial_state matches Some(s) ==> c.shared_state == s,
            initial_state is None ==> is_literal(c.shared_state, "{}"@, false),
            c.agent_results.map() == Map::<Seq<char>, JsonDatum>::empty(),
            c.task_results.map() == Map::<Seq<char>, JsonDatum>::empty(),
            c.workflow_results.map() == Map::<Seq<char>, WorkflowRecord>::empty(),
            c.variables.map() == Map::<Seq<char>, JsonDatum>::empty(),
            c.final_result is None,
    {
        let shared_state = match initial_state {
            Some(s) => s,
            None => empty_object(),
        };
        ExecutionContext {
            session_id,
            shared_state,
            agent_results: StringTable::new(),
            task_results: StringTable::new(),
            workflow_results: StringTable::new(),
            variables: StringTable::new(),
            final_result: None,
        }
    }

    /// An exact copy of the context.
    pub fn duplicate(&self) -> (r: Self)
        ensures
            same_context(r, *self),
    {
        ExecutionContext {
            session_id: self.session_id.clone(),
            shared_state: self.shared_state.duplicate(),
            agent_results: self.agent_results.duplicate(),
            task_results: self.task_results.duplicate(),
            workflow_results: self.workflow_results.duplicate(),
            variables: self.variables.duplicate(),
            final_result: self.final_result.duplicate(),
        }
    }

    /// The shared state.
    pub fn get_shared_state(&self) -> (r: Option<&JsonDatum>)
        ensures
            r == Some(&self.shared_state),
    {
        Some(&self.shared_state)
    }

    /// Replaces the shared state.
    pub fn set_shared_state(&mut self, state: JsonDatum)
        ensures
            final(self).shared_state == state,
            final(self).session_id == old(self).session_id,
            final(self).agent_results == old(self).agent_results,
            final(self).task_results == old(self).task_results,
            final(self).workflow_results == old(self).workflow_results,
            final(self).variables == old(self).variables,
            final(self).final_result == old(self).final_result,
    {
        self.shared_state = state;
    }

    /// The variable `key`, if set.
    pub fn get_variable(&self, key: &str) -> (r: Option<&JsonDatum>)
        requires
            self.wf(),
        ensures
            self.variables.map().contains_key(key@) ==> r == Some(&self.variables.map()[key@]),
            !self.variables.map().contains_key(key@) ==> r is None,
    {
        self.variables.get(key)
    }

    /// Sets the variable `key`.
    pub fn set_value(&mut self, key: &str, value: JsonDatum)
        requires
            old(self).wf(),
        ensures
            final(self).with_variables(*old(self), old(self).variables.map().insert(key@, value)),
    {
        self.variables.insert(String::from_str(key), value);
    }

    /// Sets the variable `key`.
    pub fn set_variable(&mut self, key: String, value: JsonDatum)
        requires
            old(self).wf(),
        ensures
            final(self).with_variables(*old(self), old(self).variables.map().insert(key@, value)),
    {
        self.variables.insert(key, value);
    }

    /// Records an agent's latest result.
    pub fn add_agent_result(&mut self, agent_id: String, result: JsonDatum)
        requires
            old(self).wf(),
        ensures
            final(self).wf(),
            final(self).agent_results.map() == old(self).agent_results.map().insert(agent_id@, result),
            final(self).session_id == old(self).session_id,
            final(self).shared_state == old(self).shared_state,
            final(self).task_results == old(self).task_results,
            final(self).workflow_results == old(self).workflow_results,
            final(self).variables == old(self).variables,
            final(self).final_result == old(self).final_result,
    {
        self.agent_results.insert(agent_id, result);
    }

    /// Records a task's latest result.
    pub fn add_task_result(&mut self, task_id: String, result: JsonDatum)
        requires
            old(self).wf(),
        ensures
            final(self).wf(),
            final(self).task_results.map() == old(self).task_results.map().insert(task_id@, result),
            final(self).session_id == old(self).session_id,
            final(self).shared_state == old(self).shared_state,
            final(self).agent_results == old(self).agent_results,
            final(self).workflow_results == old(self).workflow_results,
            final(self).variables == old(self).variables,
            final(self).final_result == old(self).final_result,
    {
        self.task_results.insert(task_id, result);
    }

    /// Records a workflow's latest output and running time.
    pub fn add_workflow_result(&mut self, workflow_id: String, output: JsonDatum, execution_time_ms: u64)
        requires
            old(self).wf(),
        ensures
            final(self).wf(),
            final(self).workflow_results.map() == old(self).workflow_results.map().insert(
                workflow_id@, WorkflowRecord { last_result: output, execution_time_ms }),
            final(self).session_id == old(self).session_id,
            final(self).shared_state == old(self).shared_state,
            final(self).agent_results == old(self).agent_results,
            final(self).task_results == old(self).task_results,
            final(self).variables == old(self).variables,
            final(self).final_result == old(self).final_result,
    {
        self.workflow_results.insert(workflow_id, WorkflowRecord { last_result: output, execution_time_ms });
    }

    /// Keeps `input_data` as the variable `input`.
    pub fn add_input_data(&mut self, input_data: JsonDatum)
        requires
            old(self).wf(),
        ensures
            final(self).with_variables(*old(self), old(self).variables.map().insert(input_key(), input_data)),
    {
        self.variables.insert(String::from_str("input"), input_data);
    }

    /// Whether an input is waiting to be read.
    pub fn has_input_data(&self) -> (b: bool)
        requires
            self.wf(),
        ensures
            b == self.variables.map().contains_key(input_key()),
    {
        self.variables.contains_key("input")
    }

    /// Takes the waiting input, if any.
    pub fn consume_input_data(&mut self) -> (r: Option<JsonDatum>)
        requires
            old(self).wf(),
        ensures
            final(self).with_variables(*old(self), old(self).variables.map().remove(input_key())),
            old(self).variables.map().contains_key(input_key())
                ==> r == Some(old(self).variables.map()[input_key()]),
            !old(self).variables.map().contains_key(input_key()) ==> r is None,
    {
        self.variables.remove("input")
    }

    /// Sets the final result.
    pub fn set_final_result(&mut self, result: JsonDatum)
        ensures
            final(self).final_result == Some(result),
            final(self).session_id == old(self).session_id,
            final(self).shared_state == old(self).shared_state,
            final(self).agent_results == old(self).agent_results,
            final(self).task_results == old(self).task_results,
            final(self).workflow_results == old(self).workflow_results,
            final(self).variables == old(self).variables,
    {
        self.final_result = Some(result);
    }

    /// A copy of the final result, if set.
    pub fn get_final_result(&self) -> (r: Option<JsonDatum>)
        ensures
            r == self.final_result,
    {
        self.final_result.duplicate()
    }
}

/// Where a session stands.
#[derive(Debug, Clone)]
pub enum SessionStatus {
    Running,
    AwaitingInput { interaction_id: String, agent_id: String, prompt: JsonDatum },
    Completed,
    Failed(String),
}

/// The name of a status: `running`, `awaiting_input`, `completed` or `failed`.
pub open spec fn status_name(s: SessionStatus) -> Seq<char> {
    match s {
        SessionStatus::Running => "running"@,
        SessionStatus::AwaitingInput { .. } => "awaiting_input"@,
        SessionStatus::Completed => "completed"@,
        SessionStatus::Failed(_) => "failed"@,
    }
}

/// Something that happened while a session ran.
#[derive(Debug, Clone)]
pub enum ExecutionEvent {
    BlockStarted { block_id: String },
    BlockCompleted { block_id: String, result: JsonDatum },
    AgentInteractionCompleted { agent_id: String, result: JsonDatum },
    TaskCompleted { result: JsonDatum },
    TaskFailed { error: String },
    WorkflowCompleted { workflow_id: String, result: JsonDatum },
    ContextUpdated { key: String, value: JsonDatum },
    CheckpointCreated { checkpoint_id: String },
}

/// A saved point of a session: its context, its current block and the gas it had used.
#[derive(Debug, Clone)]
pub struct SessionCheckpoint {
    pub id: String,
    pub session_id: String,
    pub execution_context: ExecutionContext,
    pub current_block_id: Option<String>,
    pub gas_consumed: u64,
}

/// Two checkpoints hold the same data.
pub open spec fn same_checkpoint(a: SessionCheckpoint, b: SessionCheckpoint) -> bool {
    &&& a.id == b.id
    &&& a.session_id == b.session_id
    &&& same_context(a.execution_context, b.execution_context)
    &&& a.current_block_id == b.current_block_id
    &&& a.gas_consumed == b.gas_consumed
}

/// One run of a flow: where it is, what it has used and recorded.
#[derive(Debug)]
pub struct OrchestrationSession {
    pub id: String,
    pub flow_definition: FlowOutline,
    pub execution_context: ExecutionContext,
    pub allocated_resources: AllocatedResources,
    pub execution_plan: ExecutionPlan,
    pub gas_limit: u64,
    pub gas_consumed: u64,
    pub status: SessionStatus,
    pub current_block_id: Option<String>,
    pub execution_history: Vec<ExecutionEvent>,
    pub checkpoints: Vec<SessionCheckpoint>,
}

impl OrchestrationSession {
    /// Everything but the context, the block, the gas used, the status and the
    /// history is as in `other`.
    pub open spec fn keeps_setup(&self, other: OrchestrationSession) -> bool {
        &&& self.id == other.id
        &&& self.flow_definition == other.flow_definition
        &&& self.allocated_resources == other.allocated_resources
        &&& self.execution_plan == other.execution_plan
        &&& self.gas_limit == other.gas_limit
        &&& self.checkpoints == other.checkpoints
    }

    /// A running session at the flow's start block, with no gas used and nothing recorded.
    pub fn new(
        id: String,
        flow_definition: FlowOutline,
        execution_context: ExecutionContext,
        allocated_resources: AllocatedResources,
        execution_plan: ExecutionPlan,
        gas_limit: u64,
    ) -> (s: Self)
        ensures
            s.id == id,
            s.flow_definition == flow_definition,
            s.execution_context == execution_context,
            s.allocated_resources == allocated_resources,
            s.execution_plan == execution_plan,
            s.gas_limit == gas_limit,
            s.gas_consumed == 0,
            s.status is Running,
            s.current_block_id == Some(flow_definition.start_block_id),
            s.execution_history@ == Seq::<ExecutionEvent>::empty(),
            s.checkpoints@ == Seq::<SessionCheckpoint>::empty(),
    {
        let start = flow_definition.start_block_id.clone();
        OrchestrationSession {
            id,
            flow_definition,
            execution_context,
            allocated_resources,
            execution_plan,
            gas_limit,
            gas_consumed: 0,
            status: SessionStatus::Running,
            current_block_id: Some(start),
            execution_history: Vec::new(),
            checkpoints: Vec::new(),
        }
    }

    /// The block to run next, if any.
    pub fn get_current_block_id(&self) -> (r: Option<String>)
        ensures
            r == self.current_block_id,
    {
        self.current_block_id.duplicate()
    }

    /// Moves to the block `block_id`.
    pub fn set_next_block(&mut self, block_id: String)
        ensures
            final(self).current_block_id == Some(block_id),
            final(self).keeps_setup(*old(self)),
            final(self).execution_context == old(self).execution_context,
            final(self).gas_consumed == old(self).gas_consumed,
            final(self).status == old(self).status,
            final(self).execution_history == old(self).execution_history,
    {
        self.current_block_id = Some(block_id);
    }

    /// Ends the session with `final_result`: completed, with no block to run.
    pub fn complete(&mut self, final_result: JsonDatum)
        ensures
            final(self).status is Completed,
            final(self).current_block_id is None,
            final(self).execution_context.final_result == Some(final_result),
            final(self).execution_context.variables == old(self).execution_context.variables,
            final(self).execution_context.shared_state == old(self).execution_context.shared_state,
            final(self).keeps_setup(*old(self)),
            final(self).gas_consumed == old(self).gas_consumed,
            final(self).execution_history == old(self).execution_history,
    {
        self.status = SessionStatus::Completed;
        self.current_block_id = None;
        self.execution_context.set_final_result(final_result);
    }

    /// Pauses the session until an agent's interaction `interaction_id` is answered.
    pub fn set_awaiting_input(&mut self, interaction_id: String, agent_id: String, prompt: JsonDatum)
        ensures
            final(self).status == (SessionStatus::AwaitingInput { interaction_id, agent_id, prompt }),
            final(self).keeps_setup(*old(self)),
            final(self).execution_context == old(self).execution_context,
            final(self).current_block_id == old(self).current_block_id,
            final(self).gas_consumed == old(self).gas_consumed,
            final(self).execution_history == old(self).execution_history,
    {
        self.status = SessionStatus::AwaitingInput { interaction_id, agent_id, prompt };
    }

    /// Resumes a session that awaits input, keeping the input as the variable
    /// `input`; any other session is refused and left as it was.
    pub fn resume_with_input(&mut self, input_data: JsonDatum) -> (r: Result<(), OrchestrationError>)
        requires
            old(self).execution_context.wf(),
        ensures
            final(self).keeps_setup(*old(self)),
            final(self).current_block_id == old(self).current_block_id,
            final(self).gas_consumed == old(self).gas_consumed,
            final(self).execution_history == old(self).execution_history,
            old(self).status is AwaitingInput ==> {
                &&& r is Ok
                &&& final(self).status is Running
                &&& final(self).execution_context.with_variables(old(self).execution_context,
                    old(self).execution_context.variables.map().insert(input_key(), input_data))
            },
            !(old(self).status is AwaitingInput) ==> {
                &&& r matches Err(e) && e@ == (OrchestrationErrorKind::Session, "Session is not awaiting input"@)
                &&& final(self).status == old(self).status
                &&& final(self).execution_context == old(self).execution_context
            },
    {
        match &self.status {
            SessionStatus::AwaitingInput { .. } => {
                self.execution_context.add_input_data(input_data);
                self.status = SessionStatus::Running;
                Ok(())
            },
            _ => Err(OrchestrationError::SessionError(String::from_str("Session is not awaiting input"))),
        }
    }

    /// The flow's block `block_id`, if it has one (the first of that identifier).
    pub fn get_block_definition(&self, block_id: &str) -> (r: Option<&BlockOutline>)
        ensures
            r matches Some(b) ==> b.id@ == block_id@
                && exists|i: int| 0 <= i < self.flow_definition.blocks@.len() && self.flow_definition.blocks@[i] == *b
                    && forall|j: int| 0 <= j < i ==> #[trigger] self.flow_definition.blocks@[j].id@ != block_id@,
            r is None ==> forall|j: int| 0 <= j < self.flow_definition.blocks@.len()
                ==> #[trigger] self.flow_definition.blocks@[j].id@ != block_id@,
    {
        let blocks = &self.flow_definition.blocks;
        let mut i: usize = 0;
        while i < blocks.len()
            invariant
                i <= blocks@.len(),
                blocks == &self.flow_definition.blocks,
                forall|j: int| 0 <= j < i ==> #[trigger] blocks@[j].id@ != block_id@,
            decreases blocks.len() - i,
        {
            if str_eq(blocks[i].id.as_str(), block_id) {
                return Some(&blocks[i]);
            }
            i = i + 1;
        }
        None
    }

    /// The context.
    pub fn get_execution_context(&self) -> (r: &ExecutionContext)
        ensures
            *r == self.execution_context,
    {
        &self.execution_context
    }

    /// Records an agent's result in the context and the history.
    pub fn update_context_with_agent_result(&mut self, agent_id: &str, result: &JsonDatum) -> (r: Result<(), OrchestrationError>)
        requires
            old(self).execution_context.wf(),
        ensures
            r is Ok,
            final(self).execution_context.wf(),
            final(self).execution_context.agent_results.map()
                == old(self).execution_context.agent_results.map().insert(agent_id@, *result),
            final(self).execution_context.variables == old(self).execution_context.variables,
            final(self).execution_history@.len() == old(self).execution_history@.len() + 1,
            final(self).execution_history@.drop_last() == old(self).execution_history@,
            final(self).execution_history@.last() matches ExecutionEvent::AgentInteractionCompleted { agent_id: a, result: v }
                && a@ == agent_id@ && v == *result,
            final(self).keeps_setup(*old(self)),
            final(self).status == old(self).status,
            final(self).current_block_id == old(self).current_block_id,
            final(self).gas_consumed == old(self).gas_consumed,
    {
        self.execution_context.add_agent_result(String::from_str(agent_id), result.duplicate());
        self.add_execution_event(ExecutionEvent::AgentInteractionCompleted {
            agent_id: String::from_str(agent_id),
            result: result.duplicate(),
        });
        Ok(())
    }

    /// Sets a variable of the context and records the change.
    pub fn update_context_value(&mut self, key: &str, value: JsonDatum) -> (r: Result<(), OrchestrationError>)
        requires
            old(self).execution_context.wf(),
        ensures
            r is Ok,
            final(self).execution_context.with_variables(old(self).execution_context,
                old(self).execution_context.variables.map().insert(key@, value)),
            final(self).execution_history@.len() == old(self).execution_history@.len() + 1,
            final(self).execution_history@.drop_last() == old(self).execution_history@,
            final(self).execution_history@.last() matches ExecutionEvent::ContextUpdated { key: k, value: v }
                && k@ == key@ && v == value,
            final(self).keeps_setup(*old(self)),
            final(self).status == old(self).status,
            final(self).current_block_id == old(self).current_block_id,
            final(self).gas_consumed == old(self).gas_consumed,
    {
        let copy = value.duplicate();
        self.execution_context.set_value(key, value);
        self.add_execution_event(ExecutionEvent::ContextUpdated { key: String::from_str(key), value: copy });
        Ok(())
    }

    /// Records a task's outcome: a result goes into the context as the task
    /// `default_task`; a failure, given by its message, is recorded and reported.
    pub fn update_context_with_task_result(&mut self, result: &Result<JsonDatum, String>) -> (r: Result<(), OrchestrationError>)
        requires
            old(self).execution_context.wf(),
        ensures
            final(self).execution_context.wf(),
            final(self).execution_history@.len() == old(self).execution_history@.len() + 1,
            final(self).execution_history@.drop_last() == old(self).execution_history@,
            final(self).keeps_setup(*old(self)),
            final(self).status == old(self).status,
            final(self).current_block_id == old(self).current_block_id,
            final(self).gas_consumed == old(self).gas_consumed,
            final(self).execution_context.variables == old(self).execution_context.variables,
            match result {
                Ok(v) => {
                    &&& r is Ok
                    &&& final(self).execution_context.task_results.map()
                        == old(self).execution_context.task_results.map().insert("default_task"@, *v)
                    &&& final(self).execution_history@.last() matches ExecutionEvent::TaskCompleted { result: w } && w == *v
                },
                Err(m) => {
                    &&& r matches Err(e) && e@ == (OrchestrationErrorKind::TaskExecution, m@)
                    &&& final(self).execution_context == old(self).execution_context
                    &&& final(self).execution_history@.last() matches ExecutionEvent::TaskFailed { error: x } && x@ == m@
                },
            },
    {
        match result {
            Ok(value) => {
                self.execution_context.add_task_result(String::from_str("default_task"), value.duplicate());
                self.add_execution_event(ExecutionEvent::TaskCompleted { result: value.duplicate() });
                Ok(())
            },
            Err(message) => {
                self.add_execution_event(ExecutionEvent::TaskFailed { error: message.clone() });
                Err(OrchestrationError::TaskExecutionError(message.clone()))
            },
        }
    }

    /// Records a workflow's output in the context and the history.
    pub fn update_context_with_workflow_result(&mut self, workflow_id: &str, output: &JsonDatum, execution_time_ms: u64)
        -> (r: Result<(), OrchestrationError>)
        requires
            old(self).execution_context.wf(),
        ensures
            r is Ok,
            final(self).execution_context.wf(),
            final(self).execution_context.workflow_results.map() == old(self).execution_context.workflow_results.map().insert(
                workflow_id@, WorkflowRecord { last_result: *output, execution_time_ms }),
            final(self).execution_context.variables == old(self).execution_context.variables,
            final(self).execution_history@.len() == old(self).execution_history@.len() + 1,
            final(self).execution_history@.drop_last() == old(self).execution_history@,
            final(self).execution_history@.last() matches ExecutionEvent::WorkflowCompleted { workflow_id: w, result: v }
                && w@ == workflow_id@ && v == *output,
            final(self).keeps_setup(*old(self)),
            final(self).status == old(self).status,
            final(self).current_block_id == old(self).current_block_id,
            final(self).gas_consumed == old(self).gas_consumed,
    {
        self.execution_context.add_workflow_result(String::from_str(workflow_id), output.duplicate(), execution_time_ms);
        self.add_execution_event(ExecutionEvent::WorkflowCompleted {
            workflow_id: String::from_str(workflow_id),
            result: output.duplicate(),
        });
        Ok(())
    }

    /// Uses `amount` gas: refused, with nothing used, when it would take the
    /// session past its limit.
    pub fn consume_gas(&mut self, amount: u64) -> (r: Result<(), OrchestrationError>)
        requires
            old(self).gas_consumed + amount <= u64::MAX,
        ensures
            old(self).gas_consumed + amount > old(self).gas_limit ==> {
                &&& r matches Err(e) && e@ == (OrchestrationErrorKind::ResourceAllocation, "Out of gas"@)
                &&& final(self).gas_consumed == old(self).gas_consumed
            },
            old(self).gas_consumed + amount <= old(self).gas_limit ==> {
                &&& r is Ok
                &&& final(self).gas_consumed == old(self).gas_consumed + amount
            },
            r is Ok ==> final(self).gas_consumed <= final(self).gas_limit,
            final(self).keeps_setup(*old(self)),
            final(self).execution_context == old(self).execution_context,
            final(self).status == old(self).status,
            final(self).current_block_id == old(self).current_block_id,
            final(self).execution_history == old(self).execution_history,
    {
        if self.gas_consumed + amount > self.gas_limit {
            Err(OrchestrationError::ResourceAllocationError(String::from_str("Out of gas")))
        } else {
            self.gas_consumed = self.gas_consumed + amount;
            Ok(())
        }
    }

    /// The name of the session's status.
    pub fn get_status(&self) -> (r: String)
        ensures
            r@ == status_name(self.status),
    {
        match &self.status {
            SessionStatus::Running => String::from_str("running"),
            SessionStatus::AwaitingInput { .. } => String::from_str("awaiting_input"),
            SessionStatus::Completed => String::from_str("completed"),
            SessionStatus::Failed(_) => String::from_str("failed"),
        }
    }

    /// The final result, or `null` when there is none yet.
    pub fn get_final_result(&self) -> (r: JsonDatum)
        ensures
            self.execution_context.final_result matches Some(v) ==> r == v,
            self.execution_context.final_result is None ==> is_literal(r, "null"@, false),
    {
        match self.execution_context.get_final_result() {
            Some(v) => v,
            None => null_datum(),
        }
    }

    /// Saves the session's context, block and gas used under `checkpoint_id`,
    /// keeps the checkpoint, and returns it.
    pub fn create_checkpoint(&mut self, checkpoint_id: String) -> (c: SessionCheckpoint)
        ensures
            c.id == checkpoint_id,
            c.session_id == old(self).id,
            same_context(c.execution_context, old(self).execution_context),
            c.current_block_id == old(self).current_block_id,
            c.gas_consumed == old(self).gas_consumed,
            final(self).checkpoints@.len() == old(self).checkpoints@.len() + 1,
            final(self).checkpoints@.drop_last() == old(self).checkpoints@,
            same_checkpoint(final(self).checkpoints@.last(), c),
            final(self).id == old(self).id,
            final(self).flow_definition == old(self).flow_definition,
            final(self).allocated_resources == old(self).allocated_resources,
            final(self).execution_plan == old(self).execution_plan,
            final(self).gas_limit == old(self).gas_limit,
            final(self).execution_context == old(self).execution_context,
            final(self).status == old(self).status,
            final(self).current_block_id == old(self).current_block_id,
            final(self).gas_consumed == old(self).gas_consumed,
            final(self).execution_history == old(self).execution_history,
    {
        let checkpoint = SessionCheckpoint {
            id: checkpoint_id,
            session_id: self.id.clone(),
            execution_context: self.execution_context.duplicate(),
            current_block_id: self.current_block_id.duplicate(),
            gas_consumed: self.gas_consumed,
        };
        let kept = SessionCheckpoint {
            id: checkpoint.id.clone(),
            session_id: checkpoint.session_id.clone(),
            execution_context: checkpoint.execution_context.duplicate(),
            current_block_id: checkpoint.current_block_id.duplicate(),
            gas_consumed: checkpoint.gas_consumed,
        };
        self.checkpoints.push(kept);
        proof {
            assert(self.checkpoints@.drop_last() =~= old(self).checkpoints@);
        }
        checkpoint
    }

    /// Returns the session to `checkpoint`: its context, block and gas used,
    /// running again; a checkpoint of another session is refused.
    pub fn restore_from_checkpoint(&mut self, checkpoint: &SessionCheckpoint) -> (r: Result<(), OrchestrationError>)
        ensures
            checkpoint.session_id@ != old(self).id@ ==> {
                &&& r matches Err(e) && e@ == (OrchestrationErrorKind::Session, "Checkpoint does not belong to this session"@)
                &&& *final(self) == *old(self)
            },
            checkpoint.session_id@ == old(self).id@ ==> {
                &&& r is Ok
                &&& same_context(final(self).execution_context, checkpoint.execution_context)
                &&& final(self).current_block_id == checkpoint.current_block_id
                &&& final(self).gas_consumed == checkpoint.gas_consumed
                &&& final(self).status is Running
                &&& final(self).keeps_setup(*old(self))
                &&& final(self).execution_history == old(self).execution_history
            },
    {
        if !str_eq(checkpoint.session_id.as_str(), self.id.as_str()) {
            return Err(OrchestrationError::SessionError(String::from_str("Checkpoint does not belong to this session")));
        }
        self.execution_context = checkpoint.execution_context.duplicate();
        self.current_block_id = checkpoint.current_block_id.duplicate();
        self.gas_consumed = checkpoint.gas_consumed;
        self.status = SessionStatus::Running;
        Ok(())
    }

    fn add_execution_event(&mut self, event: ExecutionEvent)
        ensures
            final(self).execution_history@ == old(self).execution_history@.push(event),
            final(self).id == old(self).id,
            final(self).flow_definition == old(self).flow_definition,
            final(self).execution_context == old(self).execution_context,
            final(self).allocated_resources == old(self).allocated_resources,
            final(self).execution_plan == old(self).execution_plan,
            final(self).gas_limit == old(self).gas_limit,
            final(self).gas_consumed == old(self).gas_consumed,
            final(self).status == old(self).status,
            final(self).current_block_id == old(self).current_block_id,
            final(self).checkpoints == old(self).checkpoints,
    {
        self.execution_history.push(event);
    }
}

/// Restoring a checkpoint of the same session gives back, whatever happened in
/// between, the context, the block and the gas used that the session had when
/// the checkpoint was made, and leaves the session running.
///
/// `at_checkpoint` is the session when `create_checkpoint` returned `checkpoint`,
/// `before_restore` any later state of it, and `restored` the state after
/// `restore_from_checkpoint(checkpoint)`; the requirements state what those calls ensure.
pub proof fn lemma_checkpoint_round_trip(
    at_checkpoint: OrchestrationSession,
    checkpoint: SessionCheckpoint,
    before_restore: OrchestrationSession,
    restored: OrchestrationSession,
)
    requires
        checkpoint.session_id == at_checkpoint.id,
        same_context(checkpoint.execution_context, at_checkpoint.execution_context),
        checkpoint.current_block_id == at_checkpoint.current_block_id,
        checkpoint.gas_consumed == at_checkpoint.gas_consumed,
        before_restore.id == at_checkpoint.id,
        same_context(restored.execution_context, checkpoint.execution_context),
        restored.current_block_id == checkpoint.current_block_id,
        restored.gas_consumed == checkpoint.gas_consumed,
        restored.status is Running,
    ensures
        same_context(restored.execution_context, at_checkpoint.execution_context),
        restored.current_block_id == at_checkpoint.current_block_id,
        restored.gas_consumed == at_checkpoint.gas_consumed,
        restored.status is Running,
        checkpoint.session_id@ == before_restore.id@,
{
}

/// The contexts of the running sessions, by session.
#[derive(Debug)]
pub struct ContextManager {
    pub contexts: StringTable<ExecutionContext>,
}

impl ContextManager {
    /// A manager that holds no context.
    pub fn new() -> (m: Self)
        ensures
            m.contexts.wf(),
            m.contexts.map() == Map::<Seq<char>, ExecutionContext>::empty(),
    {
        ContextManager { contexts: StringTable::new() }
    }

    /// Creates and keeps the context of the session `session_id`, starting from
    /// the flow's initial state, in place of any it had; returns a copy of it.
    pub fn create_context(&mut self, session_id: &str, initial_state: Option<JsonDatum>)
        -> (r: Result<ExecutionContext, OrchestrationError>)
        requires
            old(self).contexts.wf(),
        ensures
            final(self).contexts.wf(),
            final(self).contexts.map().dom() == old(self).contexts.map().dom().insert(session_id@),
            forall|k: Seq<char>| k != session_id@ && #[trigger] old(self).contexts.map().contains_key(k)
                ==> final(self).contexts.map()[k] == old(self).contexts.map()[k],
            r matches Ok(c) && same_context(c, final(self).contexts.map()[session_id@]),
            ({
                let c = final(self).contexts.map()[session_id@];
                &&& c.wf()
                &&& c.session_id@ == session_id@
                &&& initial_state matches Some(s) ==> c.shared_state == s
                &&& initial_state is None ==> is_literal(c.shared_state, "{}"@, false)
                &&& c.agent_results.map() == Map::<Seq<char>, JsonDatum>::empty()
                &&& c.task_results.map() == Map::<Seq<char>, JsonDatum>::empty()
                &&& c.workflow_results.map() == Map::<Seq<char>, WorkflowRecord>::empty()
                &&& c.variables.map() == Map::<Seq<char>, JsonDatum>::empty()
                &&& c.final_result is None
            }),
    {
        let context = ExecutionContext::new(String::from_str(session_id), initial_state);
        let copy = context.duplicate();
        self.contexts.insert(String::from_str(session_id), context);
        Ok(copy)
    }

    /// A copy of the context of the session `session_id`, if it has one.
    pub fn get_context(&self, session_id: &str) -> (r: Option<ExecutionContext>)
        requires
            self.contexts.wf(),
        ensures
            self.contexts.map().contains_key(session_id@)
                ==> (r matches Some(c) && same_context(c, self.contexts.map()[session_id@])),
            !self.contexts.map().contains_key(session_id@) ==> r is None,
    {
        match self.contexts.get(session_id) {
            Some(c) => Some(c.duplicate()),
            None => None,
        }
    }

    /// Replaces the context of the session `session_id` with `context`, when it has one.
    pub fn update_context(&mut self, session_id: &str, context: ExecutionContext) -> (r: Result<(), OrchestrationError>)
        requires
            old(self).contexts.wf(),
        ensures
            r is Ok,
            final(self).contexts.wf(),
            old(self).contexts.map().contains_key(session_id@)
                ==> final(self).contexts.map() == old(self).contexts.map().insert(session_id@, context),
            !old(self).contexts.map().contains_key(session_id@)
                ==> final(self).contexts.map() == old(self).contexts.map(),
    {
        if self.contexts.contains_key(session_id) {
            self.contexts.insert(String::from_str(session_id), context);
        }
        Ok(())
    }

    /// Drops the context of the session `session_id`, if it has one.
    pub fn remove_context(&mut self, session_id: &str) -> (r: Result<(), OrchestrationError>)
        requires
            old(self).contexts.wf(),
        ensures
            r is Ok,
            final(self).contexts.wf(),
            final(self).contexts.map() == old(self).contexts.map().remove(session_id@),
    {
        let _ = self.contexts.remove(session_id);
        Ok(())
    }
}

} // verus!
