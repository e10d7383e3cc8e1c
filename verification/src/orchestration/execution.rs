use vstd::prelude::*;
use crate::json::{
    is_json_text, json_as_bool, json_as_i64, json_as_str, parses_as_json, read_json_bool, read_json_i64, read_json_str,
};
use crate::keyed::Duplicate;
use crate::orchestration::adapter_types::{
    AgentSelectionCriteria, ExecutionMode, InteractionOptions, Priority,
};
use crate::orchestration::definitions::MergeStrategy;
use crate::orchestration::errors::{OrchestrationError, OrchestrationErrorKind};
use crate::orchestration::flow::BlockOutline;
use crate::orchestration::session::{input_key, is_literal, null_datum, ExecutionContext, OrchestrationSession};
use crate::orchestration::stepping::{
    answer_matches, boolean_literal, break_target, condition_view, continue_target, copy_texts,
    criteria_matches, equality_matches, exit_of, first_loop, loop_named, foreach_step, interaction_options_for,
    loop_array_key, loop_index_key, parallel_timeout, parse_condition, selection_criteria_for, texts,
    AgentSelector, ConditionTest, ConditionView, LoopStep,
};
use crate::runtime::value::JsonDatum;
use crate::text::{decimal_int, push_decimal_i64, string_from_chars};

verus! {

/// What running a block reads of its definition. `Unsupported` stands for the
/// blocks a session refuses to run (try/catch, sub-flows, resource allocation,
/// conditional agent selection, event triggers and checkpoints).
#[derive(Debug, Clone)]
pub enum BlockProgram {
    AgentInteraction {
        agent_selector: AgentSelector,
        timeout_secs: Option<u64>,
        retry_max_attempts: Option<u32>,
        next_block: String,
    },
    LLMProcessing { output_key: String, next_block: String },
    TaskExecution { next_block: String },
    WorkflowInvocation { workflow_id: String, next_block: String },
    ParallelExecution {
        branch_blocks: Vec<String>,
        merge_strategy: MergeStrategy,
        timeout_secs: Option<u64>,
        next_block: String,
    },
    AwaitInput {
        interaction_id: String,
        agent_id: String,
        prompt: String,
        state_key: String,
        next_block: String,
    },
    ForEach {
        loop_id: String,
        array_path: String,
        iterator_var: String,
        loop_body_block_id: String,
        exit_block_id: String,
    },
    Continue { loop_id: String },
    Break { loop_id: String },
    Conditional { condition: String, true_block: String, false_block: String },
    Compute { expression: String, output_key: String, next_block: String },
    Terminate,
    Unsupported,
}

/// Where a for-each block finds the array it walks.
#[derive(Debug, Clone)]
pub enum LoopSource {
    /// The copy of the array the loop recorded when it started.
    Recorded(JsonDatum),
    /// The variable named by the block's array path.
    Variable(JsonDatum),
    /// No such variable: the path is read as a JSON pointer into the shared state.
    SharedState { document: JsonDatum, pointer: String },
}

/// An array a loop walks: the document and its items, in order.
#[derive(Debug, Clone)]
pub struct LoopArray {
    pub document: JsonDatum,
    pub items: Vec<JsonDatum>,
}

/// What a step leaves to the driver of the session.
#[derive(Debug, Clone)]
pub enum StepAction {
    /// The block ran; the session is at its next block.
    Advanced,
    /// The session waits for the answer to an interaction.
    AwaitInput { interaction_id: String, agent_id: String, prompt: String },
    /// The flow ended.
    Completed,
    /// Ask an agent chosen by `criteria`, record its result, go to `next_block`.
    InteractWithAgent { criteria: AgentSelectionCriteria, options: InteractionOptions, next_block: String },
    /// Run the language-model request, store its result under `output_key`, go to `next_block`.
    ProcessLlm { output_key: String, next_block: String },
    /// Run the task, record its outcome, go to `next_block`.
    ExecuteTask { next_block: String },
    /// Invoke the workflow, record its output, go to `next_block`.
    InvokeWorkflow { workflow_id: String, next_block: String },
    /// Run the branch blocks within `timeout_secs`, merge their results by
    /// `merge_strategy`, record the merged result, go to `next_block`.
    RunParallel { branch_blocks: Vec<String>, merge_strategy: MergeStrategy, timeout_secs: u64, next_block: String },
    /// Store the expression under `output_key` (read as JSON when `parsed`, the
    /// expression being a JSON document; else as a JSON string of its text), go to `next_block`.
    Compute { expression: String, parsed: bool, output_key: String, next_block: String },
    /// Read the loop's array from `source` and hand it to [`OrchestrationSession::enter_loop`].
    ResolveLoop { source: LoopSource },
}

/// The variable holding a loop's position.
pub open spec fn index_key(loop_id: Seq<char>) -> Seq<char> {
    "__loop_"@ + loop_id + "_index"@
}

/// The variable holding the copy of the array a loop walks.
pub open spec fn array_key(loop_id: Seq<char>) -> Seq<char> {
    "__loop_"@ + loop_id + "_array"@
}

/// The integer held by the variable `key`, when it holds one.
pub open spec fn stored_integer(vars: Map<Seq<char>, JsonDatum>, key: Seq<char>) -> Option<i64> {
    if vars.contains_key(key) {
        json_as_i64(vars[key].text@)
    } else {
        None
    }
}

/// A loop's position: the integer its index variable holds, zero otherwise.
pub open spec fn loop_position(vars: Map<Seq<char>, JsonDatum>, loop_id: Seq<char>) -> i64 {
    match stored_integer(vars, index_key(loop_id)) {
        Some(i) => i,
        None => 0,
    }
}

/// `after` is `before` with the variables `k1` and `k2` set to `null`.
pub open spec fn nulled(after: Map<Seq<char>, JsonDatum>, before: Map<Seq<char>, JsonDatum>, k1: Seq<char>, k2: Seq<char>) -> bool {
    &&& after == before.insert(k1, after[k1]).insert(k2, after[k2])
    &&& is_literal(after[k1], "null"@, false)
    &&& is_literal(after[k2], "null"@, false)
}

/// `after` is `before` with its variables replaced by `vars` and its next block set to `next`.
pub open spec fn moved_on(after: OrchestrationSession, before: OrchestrationSession, vars: Map<Seq<char>, JsonDatum>, next: Seq<char>) -> bool {
    &&& after.execution_context.with_variables(before.execution_context, vars)
    &&& after.current_block_id matches Some(b) && b@ == next
    &&& after.keeps_setup(before)
    &&& after.status == before.status
    &&& after.gas_consumed == before.gas_consumed
    &&& after.execution_history == before.execution_history
}

/// Whether a conditional block's condition holds: a comparison needs its
/// variable to hold a string that matches the expected answer; a flag needs its
/// variable to hold `true`; anything else does not hold.
pub open spec fn condition_holds(vars: Map<Seq<char>, JsonDatum>, condition: Seq<char>) -> bool {
    match condition_view(condition) {
        ConditionView::Equals(name, expected) => vars.contains_key(name) && (match json_as_str(vars[name].text@) {
            Some(s) => answer_matches(s, expected),
            None => false,
        }),
        ConditionView::Flag(name) => vars.contains_key(name) && json_as_bool(vars[name].text@) == Some(true),
        ConditionView::Unsatisfiable => false,
    }
}

/// `s` is where a for-each block of the loop `loop_id` over `path` reads its
/// array: the recorded copy, else the variable `path`, else the shared state at `path`.
pub open spec fn loop_source_is(s: LoopSource, ctx: ExecutionContext, loop_id: Seq<char>, path: Seq<char>) -> bool {
    let vars = ctx.variables.map();
    if vars.contains_key(array_key(loop_id)) {
        s == LoopSource::Recorded(vars[array_key(loop_id)])
    } else if vars.contains_key(path) {
        s == LoopSource::Variable(vars[path])
    } else {
        s matches LoopSource::SharedState { document, pointer } && document == ctx.shared_state && pointer@ == path
    }
}

/// `r` is the validation failure `msg`.
pub open spec fn refused(r: Result<StepAction, OrchestrationError>, msg: Seq<char>) -> bool {
    r matches Err(e) && e@ == (OrchestrationErrorKind::Validation, msg)
}

/// The position of the first for-each block of the loop `loop_id`.
pub open spec fn loop_block(s: OrchestrationSession, loop_id: Seq<char>) -> int {
    choose|i: int| first_loop(s.flow_definition.blocks@, loop_id, i)
}

/// Whether the flow has a for-each block of the loop `loop_id`.
pub open spec fn has_loop(s: OrchestrationSession, loop_id: Seq<char>) -> bool {
    exists|i: int| first_loop(s.flow_definition.blocks@, loop_id, i)
}

/// A loop named by some block has a first block naming it.
pub proof fn lemma_first_loop_exists(blocks: Seq<BlockOutline>, loop_id: Seq<char>, j: int)
    requires
        0 <= j < blocks.len(),
        loop_named(blocks[j], loop_id),
    ensures
        exists|i: int| first_loop(blocks, loop_id, i),
    decreases j,
{
    if exists|k: int| 0 <= k < j && loop_named(#[trigger] blocks[k], loop_id) {
        let k = choose|k: int| 0 <= k < j && loop_named(#[trigger] blocks[k], loop_id);
        lemma_first_loop_exists(blocks, loop_id, k);
    } else {
        assert(first_loop(blocks, loop_id, j));
    }
}

/// What running `block` does to the session `before`, leaving `after` and answering `r`.
pub open spec fn step_taken(
    before: OrchestrationSession,
    block: BlockProgram,
    after: OrchestrationSession,
    r: Result<StepAction, OrchestrationError>,
) -> bool {
    let vars = before.execution_context.variables.map();
    let after_vars = after.execution_context.variables.map();
    match block {
        BlockProgram::AgentInteraction { agent_selector, timeout_secs, retry_max_attempts, next_block } => {
            &&& after == before
            &&& r matches Ok(StepAction::InteractWithAgent { criteria, options, next_block: n })
            &&& criteria_matches(agent_selector, criteria)
            &&& options.timeout_seconds == timeout_secs
            &&& options.retry_attempts == (match retry_max_attempts { Some(k) => k, None => 3u32 })
            &&& options.priority == Priority::Normal
            &&& options.execution_mode == ExecutionMode::Synchronous
            &&& n@ == next_block@
        },
        BlockProgram::LLMProcessing { output_key, next_block } => {
            &&& after == before
            &&& r matches Ok(StepAction::ProcessLlm { output_key: k, next_block: n })
            &&& k@ == output_key@
            &&& n@ == next_block@
        },
        BlockProgram::TaskExecution { next_block } => {
            &&& after == before
            &&& r matches Ok(StepAction::ExecuteTask { next_block: n })
            &&& n@ == next_block@
        },
        BlockProgram::WorkflowInvocation { workflow_id, next_block } => {
            &&& after == before
            &&& r matches Ok(StepAction::InvokeWorkflow { workflow_id: w, next_block: n })
            &&& w@ == workflow_id@
            &&& n@ == next_block@
        },
        BlockProgram::ParallelExecution { branch_blocks, merge_strategy, timeout_secs, next_block } => {
            &&& after == before
            &&& r matches Ok(StepAction::RunParallel { branch_blocks: b, merge_strategy: m, timeout_secs: t, next_block: n })
            &&& texts(b@) == texts(branch_blocks@)
            &&& m == merge_strategy
            &&& t == (match timeout_secs { Some(x) => x, None => 300u64 })
            &&& n@ == next_block@
        },
        BlockProgram::AwaitInput { interaction_id, agent_id, prompt, state_key, next_block } => {
            if vars.contains_key(input_key()) {
                &&& r matches Ok(StepAction::Advanced)
                &&& moved_on(after, before, vars.remove(input_key()).insert(state_key@, vars[input_key()]), next_block@)
            } else {
                &&& after == before
                &&& r matches Ok(StepAction::AwaitInput { interaction_id: i, agent_id: a, prompt: p })
                &&& i@ == interaction_id@
                &&& a@ == agent_id@
                &&& p@ == prompt@
            }
        },
        BlockProgram::ForEach { loop_id, array_path, .. } => {
            &&& after == before
            &&& r matches Ok(StepAction::ResolveLoop { source })
            &&& loop_source_is(source, before.execution_context, loop_id@, array_path@)
        },
        BlockProgram::Continue { loop_id } => {
            if has_loop(before, loop_id@) {
                let next = loop_position(vars, loop_id@).wrapping_add(1);
                &&& r matches Ok(StepAction::Advanced)
                &&& moved_on(after, before, vars.insert(index_key(loop_id@), after_vars[index_key(loop_id@)]),
                    before.flow_definition.blocks@[loop_block(before, loop_id@)].id@)
                &&& is_literal(after_vars[index_key(loop_id@)], decimal_int(next as int), next != 0)
            } else {
                &&& after == before
                &&& refused(r, "Continue references unknown loop_id '"@ + loop_id@ + "'"@)
            }
        },
        BlockProgram::Break { loop_id } => {
            if has_loop(before, loop_id@) {
                &&& r matches Ok(StepAction::Advanced)
                &&& nulled(after_vars, vars, index_key(loop_id@), array_key(loop_id@))
                &&& moved_on(after, before, after_vars,
                    exit_of(before.flow_definition.blocks@[loop_block(before, loop_id@)]))
            } else {
                &&& after == before
                &&& refused(r, "Break references unknown loop_id '"@ + loop_id@ + "'"@)
            }
        },
        BlockProgram::Conditional { condition, true_block, false_block } => {
            &&& r matches Ok(StepAction::Advanced)
            &&& moved_on(after, before, vars,
                if condition_holds(vars, condition@) { true_block@ } else { false_block@ })
        },
        BlockProgram::Compute { expression, output_key, next_block } => {
            if expression@ == "true"@ || expression@ == "false"@ {
                &&& r matches Ok(StepAction::Advanced)
                &&& moved_on(after, before, vars.insert(output_key@, after_vars[output_key@]), next_block@)
                &&& is_literal(after_vars[output_key@], expression@, expression@ == "true"@)
            } else {
                &&& after == before
                &&& r matches Ok(StepAction::Compute { expression: x, parsed: p, output_key: k, next_block: n })
                &&& x@ == expression@
                &&& p == parses_as_json(expression@)
                &&& k@ == output_key@
                &&& n@ == next_block@
            }
        },
        BlockProgram::Terminate => {
            &&& after == before
            &&& r matches Ok(StepAction::Completed)
        },
        BlockProgram::Unsupported => {
            &&& after == before
            &&& refused(r, "Cannot convert orchestration block to standard block"@)
        },
    }
}

/// What entering the loop `loop_id` with `array` (the array its source holds,
/// if it holds one) does to the session `before`, leaving `after`: on an array,
/// the array is recorded when no copy was kept, and the item at the loop's
/// position goes to `iterator_var` before the body runs; past the end, or with
/// no array, the loop's variables are cleared and the loop is left.
pub open spec fn loop_entered(
    before: OrchestrationSession,
    loop_id: Seq<char>,
    iterator_var: Seq<char>,
    body: Seq<char>,
    exit: Seq<char>,
    array: Option<LoopArray>,
    after: OrchestrationSession,
) -> bool {
    let vars = before.execution_context.variables.map();
    let after_vars = after.execution_context.variables.map();
    let position = #[verifier::truncate] (loop_position(vars, loop_id) as usize);
    &&& forall|n: i64| vars.contains_key(index_key(loop_id)) && #[trigger] decimal_int(n as int) == vars[index_key(loop_id)].text@
        ==> loop_position(vars, loop_id) == n
    &&& match array {
        Some(a) => {
            let kept = if vars.contains_key(array_key(loop_id)) { vars } else { vars.insert(array_key(loop_id), a.document) };
            if position < a.items@.len() {
                moved_on(after, before, kept.insert(iterator_var, a.items@[position as int]), body)
            } else {
                &&& nulled(after_vars, kept, index_key(loop_id), array_key(loop_id))
                &&& moved_on(after, before, after_vars, exit)
            }
        },
        None => {
            &&& nulled(after_vars, vars, index_key(loop_id), array_key(loop_id))
            &&& moved_on(after, before, after_vars, exit)
        },
    }
}

/// A `Continue` moves its loop one item on: entering the loop again with an
/// array afterwards takes the item after the one at the loop's earlier
/// position into the iterator variable and runs the body, or leaves the loop
/// when that item is past the array's end.
pub proof fn lemma_continue_moves_to_next_item(
    s0: OrchestrationSession,
    loop_id: String,
    r: Result<StepAction, OrchestrationError>,
    s1: OrchestrationSession,
    iterator_var: Seq<char>,
    body: Seq<char>,
    exit: Seq<char>,
    a: LoopArray,
    s2: OrchestrationSession,
)
    requires
        has_loop(s0, loop_id@),
        0 <= loop_position(s0.execution_context.variables.map(), loop_id@) + 1 <= usize::MAX,
        loop_position(s0.execution_context.variables.map(), loop_id@) < i64::MAX,
        step_taken(s0, BlockProgram::Continue { loop_id }, s1, r),
        loop_entered(s1, loop_id@, iterator_var, body, exit, Some(a), s2),
    ensures
        ({
            let next = loop_position(s0.execution_context.variables.map(), loop_id@) + 1;
            let vars = s2.execution_context.variables.map();
            &&& r matches Ok(StepAction::Advanced)
            &&& next < a.items@.len() ==> {
                &&& vars.contains_key(iterator_var)
                &&& vars[iterator_var] == a.items@[next]
                &&& s2.current_block_id matches Some(b) && b@ == body
            }
            &&& next >= a.items@.len() ==> (s2.current_block_id matches Some(b) && b@ == exit)
        }),
{
    let vars0 = s0.execution_context.variables.map();
    let vars1 = s1.execution_context.variables.map();
    let ik = index_key(loop_id@);
    let p = loop_position(vars0, loop_id@);
    let next: i64 = p.wrapping_add(1);
    assert(next == p + 1);
    assert(vars1.contains_key(ik));
    assert(decimal_int(next as int) == vars1[ik].text@);
    assert(loop_position(vars1, loop_id@) == next);
}

/// A session resumed with an input runs its awaiting block on that input: the
/// input is stored under the block's state key, no longer kept as `input`
/// (unless that is the state key), and the session moves to the block's next block.
pub proof fn lemma_resumed_input_reaches_state_key(
    s0: OrchestrationSession,
    input: JsonDatum,
    s1: OrchestrationSession,
    interaction_id: String,
    agent_id: String,
    prompt: String,
    state_key: String,
    next_block: String,
    r: Result<StepAction, OrchestrationError>,
    s2: OrchestrationSession,
)
    requires
        s1.execution_context.with_variables(s0.execution_context,
            s0.execution_context.variables.map().insert(input_key(), input)),
        step_taken(s1, BlockProgram::AwaitInput { interaction_id, agent_id, prompt, state_key, next_block }, s2, r),
    ensures
        r matches Ok(StepAction::Advanced),
        s2.execution_context.variables.map()
            == s0.execution_context.variables.map().remove(input_key()).insert(state_key@, input),
        s2.current_block_id matches Some(b) && b@ == next_block@,
{
    let vars0 = s0.execution_context.variables.map();
    let vars1 = s1.execution_context.variables.map();
    assert(vars1.contains_key(input_key()));
    assert(vars1.remove(input_key()).insert(state_key@, vars1[input_key()])
        =~= vars0.remove(input_key()).insert(state_key@, input));
}

/// The JSON integer `n`.
fn integer_datum(n: i64) -> (d: JsonDatum)
    ensures
        is_literal(d, decimal_int(n as int), n != 0),
{
    let mut out: Vec<char> = Vec::new();
    push_decimal_i64(n, &mut out);
    let text = string_from_chars(out.as_slice());
    let identity = text.clone();
    JsonDatum { text, identity, truthy: n != 0 }
}

/// The JSON boolean `b`.
fn boolean_datum(b: bool) -> (d: JsonDatum)
    ensures
        is_literal(d, if b { "true"@ } else { "false"@ }, b),
{
    if b {
        JsonDatum { text: String::from_str("true"), identity: String::from_str("true"), truthy: true }
    } else {
        JsonDatum { text: String::from_str("false"), identity: String::from_str("false"), truthy: false }
    }
}

impl OrchestrationSession {
    /// The integer held by the variable `key`, when it holds one.
    fn stored_integer_of(&self, key: &str) -> (r: Option<i64>)
        requires
            self.execution_context.wf(),
        ensures
            r == stored_integer(self.execution_context.variables.map(), key@),
            forall|n: i64| self.execution_context.variables.map().contains_key(key@)
                && #[trigger] decimal_int(n as int) == self.execution_context.variables.map()[key@].text@
                ==> r == Some(n),
    {
        match self.execution_context.get_variable(key) {
            Some(d) => read_json_i64(d.text.as_str()),
            None => None,
        }
    }

    /// A flow without a first block of a loop has no block of it at all.
    proof fn lemma_loop_lookup(&self, loop_id: Seq<char>)
        ensures
            !has_loop(*self, loop_id) ==> forall|j: int| 0 <= j < self.flow_definition.blocks@.len()
                ==> !loop_named(#[trigger] self.flow_definition.blocks@[j], loop_id),
    {
        if !has_loop(*self, loop_id) {
            assert forall|j: int| 0 <= j < self.flow_definition.blocks@.len()
                implies !loop_named(#[trigger] self.flow_definition.blocks@[j], loop_id) by {
                if loop_named(self.flow_definition.blocks@[j], loop_id) {
                    lemma_first_loop_exists(self.flow_definition.blocks@, loop_id, j);
                }
            }
        }
    }

    /// Whether a conditional block's condition holds on the session's variables.
    pub fn evaluate_condition(&self, condition: &str) -> (b: bool)
        requires
            self.execution_context.wf(),
        ensures
            b == condition_holds(self.execution_context.variables.map(), condition@),
    {
        match parse_condition(condition) {
            ConditionTest::Equals { var_name, expected } => {
                match self.execution_context.get_variable(var_name.as_str()) {
                    Some(d) => match read_json_str(d.text.as_str()) {
                        Some(s) => equality_matches(s.as_str(), expected.as_str()),
                        None => false,
                    },
                    None => false,
                }
            },
            ConditionTest::Flag { var_name } => {
                match self.execution_context.get_variable(var_name.as_str()) {
                    Some(d) => match read_json_bool(d.text.as_str()) {
                        Some(v) => v,
                        None => false,
                    },
                    None => false,
                }
            },
            ConditionTest::Unsatisfiable => false,
        }
    }

    /// Sets the variables `k1` and `k2` to `null`.
    fn clear_pair(&mut self, k1: &str, k2: &str)
        requires
            old(self).execution_context.wf(),
        ensures
            final(self).execution_context.with_variables(old(self).execution_context,
                final(self).execution_context.variables.map()),
            nulled(final(self).execution_context.variables.map(), old(self).execution_context.variables.map(), k1@, k2@),
            final(self).current_block_id == old(self).current_block_id,
            final(self).keeps_setup(*old(self)),
            final(self).status == old(self).status,
            final(self).gas_consumed == old(self).gas_consumed,
            final(self).execution_history == old(self).execution_history,
    {
        let ghost before = self.execution_context.variables.map();
        self.execution_context.set_value(k1, null_datum());
        self.execution_context.set_value(k2, null_datum());
        proof {
            let after = self.execution_context.variables.map();
            assert(after =~= before.insert(k1@, after[k1@]).insert(k2@, after[k2@]));
        }
    }

    /// Runs the block `block` as far as the session can by itself: loops,
    /// conditions, computed booleans, awaited input and termination are decided
    /// here; the work of agents, language models, tasks, workflows, parallel
    /// branches, other computations and the reading of a loop's array is
    /// returned as the action the driver carries out.
    pub fn step(&mut self, block: &BlockProgram) -> (r: Result<StepAction, OrchestrationError>)
        requires
            old(self).execution_context.wf(),
        ensures
            final(self).execution_context.wf(),
            step_taken(*old(self), *block, *final(self), r),
    {
        match block {
            BlockProgram::AgentInteraction { agent_selector, timeout_secs, retry_max_attempts, next_block } => {
                Ok(StepAction::InteractWithAgent {
                    criteria: selection_criteria_for(agent_selector),
                    options: interaction_options_for(*timeout_secs, *retry_max_attempts),
                    next_block: next_block.clone(),
                })
            },
            BlockProgram::LLMProcessing { output_key, next_block } => {
                Ok(StepAction::ProcessLlm { output_key: output_key.clone(), next_block: next_block.clone() })
            },
            BlockProgram::TaskExecution { next_block } => {
                Ok(StepAction::ExecuteTask { next_block: next_block.clone() })
            },
            BlockProgram::WorkflowInvocation { workflow_id, next_block } => {
                Ok(StepAction::InvokeWorkflow { workflow_id: workflow_id.clone(), next_block: next_block.clone() })
            },
            BlockProgram::ParallelExecution { branch_blocks, merge_strategy, timeout_secs, next_block } => {
                Ok(StepAction::RunParallel {
                    branch_blocks: copy_texts(branch_blocks),
                    merge_strategy: merge_strategy.duplicate(),
                    timeout_secs: parallel_timeout(*timeout_secs),
                    next_block: next_block.clone(),
                })
            },
            BlockProgram::AwaitInput { interaction_id, agent_id, prompt, state_key, next_block } => {
                if self.execution_context.has_input_data() {
                    match self.execution_context.consume_input_data() {
                        Some(input) => {
                            self.execution_context.set_variable(state_key.clone(), input);
                            self.set_next_block(next_block.clone());
                            Ok(StepAction::Advanced)
                        },
                        None => Ok(StepAction::AwaitInput {
                            interaction_id: interaction_id.clone(),
                            agent_id: agent_id.clone(),
                            prompt: prompt.clone(),
                        }),
                    }
                } else {
                    Ok(StepAction::AwaitInput {
                        interaction_id: interaction_id.clone(),
                        agent_id: agent_id.clone(),
                        prompt: prompt.clone(),
                    })
                }
            },
            BlockProgram::ForEach { loop_id, array_path, .. } => {
                let ak = loop_array_key(loop_id.as_str());
                let source = match self.execution_context.get_variable(ak.as_str()) {
                    Some(d) => LoopSource::Recorded(d.duplicate()),
                    None => match self.execution_context.get_variable(array_path.as_str()) {
                        Some(d) => LoopSource::Variable(d.duplicate()),
                        None => LoopSource::SharedState {
                            document: self.execution_context.shared_state.duplicate(),
                            pointer: array_path.clone(),
                        },
                    },
                };
                Ok(StepAction::ResolveLoop { source })
            },
            BlockProgram::Continue { loop_id } => {
                proof { self.lemma_loop_lookup(loop_id@); }
                match continue_target(&self.flow_definition.blocks, loop_id.as_str()) {
                    Ok(target) => {
                        let ik = loop_index_key(loop_id.as_str());
                        let current = match self.stored_integer_of(ik.as_str()) {
                            Some(i) => i,
                            None => 0,
                        };
                        let next = current.wrapping_add(1);
                        self.execution_context.set_value(ik.as_str(), integer_datum(next));
                        self.set_next_block(target);
                        Ok(StepAction::Advanced)
                    },
                    Err(e) => Err(e),
                }
            },
            BlockProgram::Break { loop_id } => {
                proof { self.lemma_loop_lookup(loop_id@); }
                match break_target(&self.flow_definition.blocks, loop_id.as_str()) {
                    Ok(exit) => {
                        let ik = loop_index_key(loop_id.as_str());
                        let ak = loop_array_key(loop_id.as_str());
                        self.clear_pair(ik.as_str(), ak.as_str());
                        self.set_next_block(exit);
                        Ok(StepAction::Advanced)
                    },
                    Err(e) => Err(e),
                }
            },
            BlockProgram::Conditional { condition, true_block, false_block } => {
                if self.evaluate_condition(condition.as_str()) {
                    self.set_next_block(true_block.clone());
                } else {
                    self.set_next_block(false_block.clone());
                }
                Ok(StepAction::Advanced)
            },
            BlockProgram::Compute { expression, output_key, next_block } => {
                match boolean_literal(expression.as_str()) {
                    Some(b) => {
                        self.execution_context.set_value(output_key.as_str(), boolean_datum(b));
                        self.set_next_block(next_block.clone());
                        Ok(StepAction::Advanced)
                    },
                    None => Ok(StepAction::Compute {
                        expression: expression.clone(),
                        parsed: is_json_text(expression.as_str()),
                        output_key: output_key.clone(),
                        next_block: next_block.clone(),
                    }),
                }
            },
            BlockProgram::Terminate => Ok(StepAction::Completed),
            BlockProgram::Unsupported => Err(OrchestrationError::ValidationError(
                String::from_str("Cannot convert orchestration block to standard block"),
            )),
        }
    }

    /// Goes on with a for-each block of the loop `loop_id` once its array is
    /// read: `array` holds it when the loop's source is an array.
    pub fn enter_loop(
        &mut self,
        loop_id: &str,
        iterator_var: &str,
        loop_body_block_id: String,
        exit_block_id: String,
        array: Option<LoopArray>,
    )
        requires
            old(self).execution_context.wf(),
        ensures
            final(self).execution_context.wf(),
            loop_entered(*old(self), loop_id@, iterator_var@, loop_body_block_id@, exit_block_id@, array, *final(self)),
    {
        let ik = loop_index_key(loop_id);
        let ak = loop_array_key(loop_id);
        let stored = self.stored_integer_of(ik.as_str());
        let has_snapshot = self.execution_context.variables.contains_key(ak.as_str());
        match array {
            Some(a) => {
                let LoopArray { document, items } = a;
                let step = foreach_step(stored, Some(items.len()), has_snapshot);
                if !has_snapshot {
                    self.execution_context.set_value(ak.as_str(), document);
                }
                match step {
                    LoopStep::Enter { index, .. } => {
                        let item = items[index].duplicate();
                        self.execution_context.set_value(iterator_var, item);
                        self.set_next_block(loop_body_block_id);
                    },
                    LoopStep::Leave => {
                        self.clear_pair(ik.as_str(), ak.as_str());
                        self.set_next_block(exit_block_id);
                    },
                }
            },
            None => {
                self.clear_pair(ik.as_str(), ak.as_str());
                self.set_next_block(exit_block_id);
            },
        }
    }
}

} // verus!
