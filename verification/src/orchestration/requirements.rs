use vstd::prelude::*;
use crate::orchestration::definitions::{ResourceRequirement, TaskExecutionConfig};
use crate::orchestration::manager::{agent_requirement_for, estimate_token_usage, token_estimate, FlowResourceRequirements};
use crate::orchestration::resources::{AgentRequirement, LLMRequirement, TaskRequirement, WorkflowRequirement};

verus! {

/// What a block of a flow asks of the resource manager. `Nothing` stands for
/// the blocks that ask for no resource.
#[derive(Debug, Clone)]
pub enum BlockNeeds {
    /// An agent step, by the type of its task.
    Agent { task_type: String },
    /// A language-model step: the provider and model, the size in bytes of its
    /// prompt template, how many context keys it reads, and its output limit.
    Llm { provider: String, model: String, template_bytes: usize, context_keys: usize, max_tokens: Option<u32> },
    /// A task step, with its configuration and the machine resources it needs.
    Task { config: TaskExecutionConfig, resource_requirements: ResourceRequirement },
    /// A workflow step.
    Workflow { workflow_id: String },
    Nothing,
}

/// A language-model step's token estimate fits in a `u32`.
pub open spec fn estimate_fits(b: BlockNeeds) -> bool {
    match b {
        BlockNeeds::Llm { template_bytes, context_keys, max_tokens, .. } => {
            &&& context_keys <= usize::MAX / 50
            &&& token_estimate(template_bytes as nat, context_keys as nat, max_tokens) <= u32::MAX
        },
        _ => true,
    }
}

/// The task types of the agent steps among the first `n` blocks, in order.
pub open spec fn agent_task_types(blocks: Seq<BlockNeeds>, n: int) -> Seq<Seq<char>>
    decreases n,
{
    if n <= 0 {
        Seq::empty()
    } else {
        match blocks[n - 1] {
            BlockNeeds::Agent { task_type } => agent_task_types(blocks, n - 1).push(task_type@),
            _ => agent_task_types(blocks, n - 1),
        }
    }
}

/// The provider, model and token estimate of the language-model steps among
/// the first `n` blocks, in order.
pub open spec fn llm_needs(blocks: Seq<BlockNeeds>, n: int) -> Seq<(Seq<char>, Seq<char>, int)>
    decreases n,
{
    if n <= 0 {
        Seq::empty()
    } else {
        match blocks[n - 1] {
            BlockNeeds::Llm { provider, model, template_bytes, context_keys, max_tokens } =>
                llm_needs(blocks, n - 1).push((provider@, model@,
                    token_estimate(template_bytes as nat, context_keys as nat, max_tokens))),
            _ => llm_needs(blocks, n - 1),
        }
    }
}

/// The task steps among the first `n` blocks, in order.
pub open spec fn task_needs(blocks: Seq<BlockNeeds>, n: int) -> Seq<(TaskExecutionConfig, ResourceRequirement)>
    decreases n,
{
    if n <= 0 {
        Seq::empty()
    } else {
        match blocks[n - 1] {
            BlockNeeds::Task { config, resource_requirements } =>
                task_needs(blocks, n - 1).push((config, resource_requirements)),
            _ => task_needs(blocks, n - 1),
        }
    }
}

/// The workflows of the workflow steps among the first `n` blocks, in order.
pub open spec fn workflow_needs(blocks: Seq<BlockNeeds>, n: int) -> Seq<Seq<char>>
    decreases n,
{
    if n <= 0 {
        Seq::empty()
    } else {
        match blocks[n - 1] {
            BlockNeeds::Workflow { workflow_id } => workflow_needs(blocks, n - 1).push(workflow_id@),
            _ => workflow_needs(blocks, n - 1),
        }
    }
}

/// The task types of a list of agent requirements, each of which asks for its task type as its one capability.
pub open spec fn agent_requirements_are(v: Seq<AgentRequirement>, types: Seq<Seq<char>>) -> bool {
    &&& v.len() == types.len()
    &&& forall|i: int| 0 <= i < v.len() ==> {
        &&& (#[trigger] v[i]).task_type@ == types[i]
        &&& v[i].capabilities@.len() == 1
        &&& v[i].capabilities@[0]@ == types[i]
    }
}

/// The views of a list of language-model requirements.
pub open spec fn llm_requirements_view(v: Seq<LLMRequirement>) -> Seq<(Seq<char>, Seq<char>, int)> {
    v.map_values(|r: LLMRequirement| (r.provider@, r.model@, r.estimated_tokens as int))
}

/// The contents of a list of task requirements.
pub open spec fn task_requirements_view(v: Seq<TaskRequirement>) -> Seq<(TaskExecutionConfig, ResourceRequirement)> {
    v.map_values(|r: TaskRequirement| (r.config, r.resource_requirements))
}

/// The workflows of a list of workflow requirements.
pub open spec fn workflow_requirements_view(v: Seq<WorkflowRequirement>) -> Seq<Seq<char>> {
    v.map_values(|r: WorkflowRequirement| r.workflow_id@)
}

/// The resources a flow asks for, block by block in order: an agent per agent
/// step (its task type as the capability), a language-model instance per
/// language-model step with its token estimate, a task executor per task step
/// and a workflow executor per workflow step.
pub fn analyse_flow_requirements(blocks: Vec<BlockNeeds>) -> (r: FlowResourceRequirements)
    requires
        forall|i: int| 0 <= i < blocks@.len() ==> estimate_fits(#[trigger] blocks@[i]),
    ensures
        agent_requirements_are(r.agent_requirements@, agent_task_types(blocks@, blocks@.len() as int)),
        llm_requirements_view(r.llm_requirements@) == llm_needs(blocks@, blocks@.len() as int),
        task_requirements_view(r.task_requirements@) == task_needs(blocks@, blocks@.len() as int),
        workflow_requirements_view(r.workflow_requirements@) == workflow_needs(blocks@, blocks@.len() as int),
{
    let ghost all = blocks@;
    let mut agents: Vec<AgentRequirement> = Vec::new();
    let mut llms: Vec<LLMRequirement> = Vec::new();
    let mut tasks: Vec<TaskRequirement> = Vec::new();
    let mut workflows: Vec<WorkflowRequirement> = Vec::new();
    let mut rest = blocks;
    let total: usize = rest.len();
    let mut i: usize = 0;
    while rest.len() > 0
        invariant
            i + rest@.len() == all.len(),
            all.len() == total,
            rest@ =~= all.subrange(i as int, all.len() as int),
            forall|j: int| 0 <= j < all.len() ==> estimate_fits(#[trigger] all[j]),
            agent_requirements_are(agents@, agent_task_types(all, i as int)),
            llm_requirements_view(llms@) == llm_needs(all, i as int),
            task_requirements_view(tasks@) == task_needs(all, i as int),
            workflow_requirements_view(workflows@) == workflow_needs(all, i as int),
        decreases rest.len(),
    {
        let block = rest.remove(0);
        proof {
            assert(block == all[i as int]);
            assert(rest@ =~= all.subrange(i + 1, all.len() as int));
        }
        match block {
            BlockNeeds::Agent { task_type } => {
                let req = agent_requirement_for(&task_type);
                agents.push(req);
            },
            BlockNeeds::Llm { provider, model, template_bytes, context_keys, max_tokens } => {
                let estimated_tokens = estimate_token_usage(template_bytes, context_keys, max_tokens);
                llms.push(LLMRequirement { provider, model, estimated_tokens });
                assert(llm_requirements_view(llms@) =~= llm_needs(all, i + 1));
            },
            BlockNeeds::Task { config, resource_requirements } => {
                tasks.push(TaskRequirement { config, resource_requirements });
                assert(task_requirements_view(tasks@) =~= task_needs(all, i + 1));
            },
            BlockNeeds::Workflow { workflow_id } => {
                workflows.push(WorkflowRequirement { workflow_id });
                assert(workflow_requirements_view(workflows@) =~= workflow_needs(all, i + 1));
            },
            BlockNeeds::Nothing => {},
        }
        i = i + 1;
        assert(llm_requirements_view(llms@) =~= llm_needs(all, i as int));
        assert(task_requirements_view(tasks@) =~= task_needs(all, i as int));
        assert(workflow_requirements_view(workflows@) =~= workflow_needs(all, i as int));
    }
    FlowResourceRequirements {
        agent_requirements: agents,
        llm_requirements: llms,
        task_requirements: tasks,
        workflow_requirements: workflows,
    }
}

} // verus!
