use vstd::prelude::*;
use crate::keyed::StringTable;
use crate::orchestration::errors::{OrchestrationError, OrchestrationErrorKind};
use crate::orchestration::validation::or_else;
use crate::text::{decimal_nat, push_decimal_u64, push_str_chars, str_eq, string_from_chars};

verus! {

/// What the planner and the validator read of a block: where it leads.
///
/// `Step` stands for the compute, workflow-invocation, resource-allocation,
/// event-trigger and state-checkpoint blocks; `Other` for the blocks whose
/// successors are decided while the flow runs (awaiting input, try/catch,
/// sub-flows, loop control, termination and conditional agent selection).
#[derive(Debug, Clone)]
pub enum BlockShape {
    Conditional { true_block: String, false_block: String },
    AgentInteraction { next_block: String },
    LLMProcessing { next_block: String },
    TaskExecution { next_block: String },
    ParallelExecution { branch_blocks: Vec<String>, next_block: String },
    Step { next_block: String },
    ForEach { loop_id: String, loop_body_block_id: String, exit_block_id: String },
    Other,
}

/// A block of a flow: its identifier and its shape.
#[derive(Debug, Clone)]
pub struct BlockOutline {
    pub id: String,
    pub shape: BlockShape,
}

/// What the planner and the validator read of a flow definition: its
/// identifier, its first block, its blocks in order, and how many agents,
/// language-model instances and tasks its resource requirements name.
#[derive(Debug, Clone)]
pub struct FlowOutline {
    pub id: String,
    pub start_block_id: String,
    pub blocks: Vec<BlockOutline>,
    pub agent_requirements: usize,
    pub llm_requirements: usize,
    pub task_requirements: usize,
}

/// Per-session limits on the resources a flow may use.
#[derive(Debug, Clone, Copy)]
pub struct ResourceLimits {
    pub max_agents_per_session: u32,
    pub max_llm_instances_per_session: u32,
    pub max_tasks_per_session: u32,
    pub max_memory_mb_per_session: u64,
    pub max_cpu_cores_per_session: u32,
}

/// Whether some block has identifier `id`.
pub open spec fn has_block(blocks: Seq<BlockOutline>, id: Seq<char>) -> bool {
    exists|i: int| 0 <= i < blocks.len() && #[trigger] blocks[i].id@ == id
}

/// The next block a block names, if its shape names exactly one that the validator checks.
pub open spec fn checked_next(shape: BlockShape) -> Option<Seq<char>> {
    match shape {
        BlockShape::AgentInteraction { next_block } => Some(next_block@),
        BlockShape::LLMProcessing { next_block } => Some(next_block@),
        BlockShape::TaskExecution { next_block } => Some(next_block@),
        BlockShape::ParallelExecution { next_block, .. } => Some(next_block@),
        BlockShape::Step { next_block } => Some(next_block@),
        _ => None,
    }
}

/// The finding on the references of one block: a branch target or a non-empty
/// next block that no block of the flow has as identifier.
pub open spec fn reference_issue(blocks: Seq<BlockOutline>, b: BlockOutline) -> Option<Seq<char>> {
    match b.shape {
        BlockShape::Conditional { true_block, false_block } =>
            if !has_block(blocks, true_block@) {
                Some("Block '"@ + b.id@ + "' references non-existent true_block '"@ + true_block@ + "'"@)
            } else if !has_block(blocks, false_block@) {
                Some("Block '"@ + b.id@ + "' references non-existent false_block '"@ + false_block@ + "'"@)
            } else {
                None
            },
        _ => match checked_next(b.shape) {
            Some(n) => if n.len() != 0 && !has_block(blocks, n) {
                Some("Block '"@ + b.id@ + "' references non-existent next_block '"@ + n + "'"@)
            } else {
                None
            },
            None => None,
        },
    }
}

/// The first finding on block references, from position `i` on.
pub open spec fn references_issue_from(blocks: Seq<BlockOutline>, i: int) -> Option<Seq<char>>
    decreases blocks.len() - i,
{
    if i < 0 || i >= blocks.len() {
        None
    } else {
        or_else(reference_issue(blocks, blocks[i]), references_issue_from(blocks, i + 1))
    }
}

/// A finding on a requirement count above its limit.
pub open spec fn over_limit(count: u32, limit: u32, what: Seq<char>) -> Option<Seq<char>> {
    if count > limit {
        Some("Flow requires "@ + decimal_nat(count as nat) + " "@ + what + ", but limit is "@ + decimal_nat(limit as nat))
    } else {
        None
    }
}

/// The finding on a flow definition: it has blocks, its start block exists,
/// every reference resolves, and its requirement counts (taken as `u32`) are within the limits.
pub open spec fn flow_issue(flow: FlowOutline, limits: ResourceLimits) -> Option<Seq<char>> {
    let blocks = flow.blocks@;
    if blocks.len() == 0 {
        Some("Flow definition must contain at least one block"@)
    } else if !has_block(blocks, flow.start_block_id@) {
        Some("Start block '"@ + flow.start_block_id@ + "' not found in flow definition"@)
    } else {
        or_else(references_issue_from(blocks, 0),
        or_else(over_limit(#[verifier::truncate] (flow.agent_requirements as u32), limits.max_agents_per_session, "agents"@),
        or_else(over_limit(#[verifier::truncate] (flow.llm_requirements as u32), limits.max_llm_instances_per_session, "LLM instances"@),
            over_limit(#[verifier::truncate] (flow.task_requirements as u32), limits.max_tasks_per_session, "tasks"@))))
    }
}

/// Whether some block has identifier `id`.
pub fn block_exists(blocks: &Vec<BlockOutline>, id: &str) -> (b: bool)
    ensures
        b == has_block(blocks@, id@),
{
    let mut i: usize = 0;
    while i < blocks.len()
        invariant
            i <= blocks@.len(),
            forall|m: int| 0 <= m < i ==> #[trigger] blocks@[m].id@ != id@,
        decreases blocks.len() - i,
    {
        if str_eq(blocks[i].id.as_str(), id) {
            return true;
        }
        i = i + 1;
    }
    false
}

fn reference_text(block_id: &str, field: &str, target: &str) -> (r: String)
    ensures
        r@ == "Block '"@ + block_id@ + "' references non-existent "@ + field@ + " '"@ + target@ + "'"@,
{
    let mut out: Vec<char> = Vec::new();
    push_str_chars(&mut out, "Block '");
    push_str_chars(&mut out, block_id);
    push_str_chars(&mut out, "' references non-existent ");
    push_str_chars(&mut out, field);
    push_str_chars(&mut out, " '");
    push_str_chars(&mut out, target);
    push_str_chars(&mut out, "'");
    string_from_chars(out.as_slice())
}

fn next_of(shape: &BlockShape) -> (r: Option<&String>)
    ensures
        match checked_next(*shape) {
            Some(n) => r matches Some(s) && s@ == n,
            None => r is None,
        },
{
    match shape {
        BlockShape::AgentInteraction { next_block } => Some(next_block),
        BlockShape::LLMProcessing { next_block } => Some(next_block),
        BlockShape::TaskExecution { next_block } => Some(next_block),
        BlockShape::ParallelExecution { next_block, .. } => Some(next_block),
        BlockShape::Step { next_block } => Some(next_block),
        _ => None,
    }
}

fn check_references(blocks: &Vec<BlockOutline>, b: &BlockOutline) -> (r: Option<String>)
    ensures
        match reference_issue(blocks@, *b) {
            Some(m) => r matches Some(s) && s@ == m,
            None => r is None,
        },
{
    match &b.shape {
        BlockShape::Conditional { true_block, false_block } => {
            if !block_exists(blocks, true_block.as_str()) {
                let m = reference_text(b.id.as_str(), "true_block", true_block.as_str());
                proof {
                    assert("Block '"@ + b.id@ + "' references non-existent "@ + "true_block"@ + " '"@ + true_block@ + "'"@
                        =~= "Block '"@ + b.id@ + "' references non-existent true_block '"@ + true_block@ + "'"@) by {
                        reveal_strlit("' references non-existent ");
                        reveal_strlit("true_block");
                        reveal_strlit(" '");
                        reveal_strlit("' references non-existent true_block '");
                    }
                }
                return Some(m);
            }
            if !block_exists(blocks, false_block.as_str()) {
                let m = reference_text(b.id.as_str(), "false_block", false_block.as_str());
                proof {
                    assert("Block '"@ + b.id@ + "' references non-existent "@ + "false_block"@ + " '"@ + false_block@ + "'"@
                        =~= "Block '"@ + b.id@ + "' references non-existent false_block '"@ + false_block@ + "'"@) by {
                        reveal_strlit("' references non-existent ");
                        reveal_strlit("false_block");
                        reveal_strlit(" '");
                        reveal_strlit("' references non-existent false_block '");
                    }
                }
                return Some(m);
            }
            None
        },
        _ => {
            match next_of(&b.shape) {
                Some(n) => {
                    if !n.as_str().is_empty() && !block_exists(blocks, n.as_str()) {
                        let m = reference_text(b.id.as_str(), "next_block", n.as_str());
                        proof {
                            assert("Block '"@ + b.id@ + "' references non-existent "@ + "next_block"@ + " '"@ + n@ + "'"@
                                =~= "Block '"@ + b.id@ + "' references non-existent next_block '"@ + n@ + "'"@) by {
                                reveal_strlit("' references non-existent ");
                                reveal_strlit("next_block");
                                reveal_strlit(" '");
                                reveal_strlit("' references non-existent next_block '");
                            }
                        }
                        Some(m)
                    } else {
                        None
                    }
                },
                None => None,
            }
        },
    }
}

fn limit_text(count: u32, what: &str, limit: u32) -> (r: String)
    ensures
        r@ == "Flow requires "@ + decimal_nat(count as nat) + " "@ + what@ + ", but limit is "@ + decimal_nat(limit as nat),
{
    let mut out: Vec<char> = Vec::new();
    push_str_chars(&mut out, "Flow requires ");
    push_decimal_u64(count as u64, &mut out);
    push_str_chars(&mut out, " ");
    push_str_chars(&mut out, what);
    push_str_chars(&mut out, ", but limit is ");
    push_decimal_u64(limit as u64, &mut out);
    string_from_chars(out.as_slice())
}

/// Checks a flow definition before it runs, as [`flow_issue`] states; a finding
/// is reported as a validation error.
pub fn validate_flow_definition(flow: &FlowOutline, limits: &ResourceLimits) -> (r: Result<(), OrchestrationError>)
    ensures
        match flow_issue(*flow, *limits) {
            Some(m) => r matches Err(e) && e@ == (OrchestrationErrorKind::Validation, m),
            None => r is Ok,
        },
{
    if flow.blocks.len() == 0 {
        return Err(OrchestrationError::ValidationError(
            String::from_str("Flow definition must contain at least one block"),
        ));
    }
    if !block_exists(&flow.blocks, flow.start_block_id.as_str()) {
        let mut out: Vec<char> = Vec::new();
        push_str_chars(&mut out, "Start block '");
        push_str_chars(&mut out, flow.start_block_id.as_str());
        push_str_chars(&mut out, "' not found in flow definition");
        return Err(OrchestrationError::ValidationError(string_from_chars(out.as_slice())));
    }
    let ghost blocks = flow.blocks@;
    let mut i: usize = 0;
    while i < flow.blocks.len()
        invariant
            i <= blocks.len(),
            blocks == flow.blocks@,
            blocks.len() > 0,
            has_block(blocks, flow.start_block_id@),
            references_issue_from(blocks, 0) == references_issue_from(blocks, i as int),
        decreases flow.blocks.len() - i,
    {
        match check_references(&flow.blocks, &flow.blocks[i]) {
            Some(m) => {
                return Err(OrchestrationError::ValidationError(m));
            },
            None => {},
        }
        i = i + 1;
    }
    let total_agents = #[verifier::truncate] (flow.agent_requirements as u32);
    let total_llms = #[verifier::truncate] (flow.llm_requirements as u32);
    let total_tasks = #[verifier::truncate] (flow.task_requirements as u32);
    if total_agents > limits.max_agents_per_session {
        return Err(OrchestrationError::ValidationError(limit_text(total_agents, "agents", limits.max_agents_per_session)));
    }
    if total_llms > limits.max_llm_instances_per_session {
        return Err(OrchestrationError::ValidationError(
            limit_text(total_llms, "LLM instances", limits.max_llm_instances_per_session),
        ));
    }
    if total_tasks > limits.max_tasks_per_session {
        return Err(OrchestrationError::ValidationError(limit_text(total_tasks, "tasks", limits.max_tasks_per_session)));
    }
    Ok(())
}

} // verus!
