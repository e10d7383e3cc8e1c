use vstd::prelude::*;
use crate::orchestration::adapter_types::{ErrorCategory, ResourceUsageInfo};
use crate::orchestration::definitions::{TaskPriority, WorkflowExecutionMode};
use crate::text::{chars_of, find_chars, first_occurrence, lemma_first_occurrence, occurs_at, string_from_chars};
use crate::textops::slice_chars;
use crate::json::{json_as_str, json_member, json_member_of, json_pointer, json_pointer_of, read_json_str};
use crate::keyed::StringTable;
use crate::runtime::value::JsonDatum;
use crate::keyed::Duplicate;
use crate::orchestration::adapter_types::ValidationConfig;
use crate::orchestration::definitions::{ResourceRequirement, TaskExecutionConfig};
use crate::orchestration::errors::AdapterError;
use crate::orchestration::validation::{
    pairs_view,
    llm_input_issue, prompt_issue, task_input_issue, validate_llm_request_input,
    validate_task_execution_input, verdict, ContextSnapshot, InputValidator,
};
use crate::text::concat_str;
use vstd::utf8::{decode_utf8, encode_utf8, encode_utf8_decode_utf8, is_char_boundary};

verus! {

/// `s` with every occurrence of a non-empty `pat` replaced by `rep`, the
/// occurrences taken from the left without overlapping, as `str::replace` does.
pub open spec fn replace_all(s: Seq<char>, pat: Seq<char>, rep: Seq<char>) -> Seq<char>
    decreases s.len(),
{
    if pat.len() == 0 {
        s
    } else {
        match first_occurrence(s, pat, 0) {
            None => s,
            Some(p) => {
                proof { lemma_first_occurrence(s, pat, 0); }
                s.subrange(0, p) + rep + replace_all(s.subrange(p + pat.len(), s.len() as int), pat, rep)
            },
        }
    }
}

/// Searching the text from `i` on is searching its suffix from the start.
pub proof fn lemma_first_occurrence_suffix(s: Seq<char>, pat: Seq<char>, i: int, k: int)
    requires
        0 <= i <= s.len(),
        0 <= k,
    ensures
        first_occurrence(s.subrange(i, s.len() as int), pat, k) == match first_occurrence(s, pat, i + k) {
            Some(p) => Some(p - i),
            None => None,
        },
    decreases s.len() + 1 - (i + k),
{
    let t = s.subrange(i, s.len() as int);
    if k + pat.len() > t.len() {
    } else {
        assert(t.subrange(k, k + pat.len()) =~= s.subrange(i + k, i + k + pat.len()));
        if !occurs_at(t, pat, k) {
            lemma_first_occurrence_suffix(s, pat, i, k + 1);
        }
    }
}

fn append_chars(out: &mut Vec<char>, cs: &Vec<char>)
    ensures
        final(out)@ == old(out)@ + cs@,
{
    let mut j: usize = 0;
    let ghost base = out@;
    while j < cs.len()
        invariant
            j <= cs@.len(),
            out@ == base + cs@.take(j as int),
        decreases cs.len() - j,
    {
        out.push(cs[j]);
        j = j + 1;
        assert(out@ =~= base + cs@.take(j as int));
    }
    assert(cs@.take(cs@.len() as int) =~= cs@);
}

pub(crate) fn replace_all_chars(s: &Vec<char>, pat: &Vec<char>, rep: &Vec<char>) -> (r: Vec<char>)
    requires
        pat@.len() > 0,
    ensures
        r@ == replace_all(s@, pat@, rep@),
{
    let mut out: Vec<char> = Vec::new();
    let mut i: usize = 0;
    assert(s@.subrange(0, s@.len() as int) =~= s@);
    while i < s.len()
        invariant
            i <= s@.len(),
            pat@.len() > 0,
            out@ + replace_all(s@.subrange(i as int, s@.len() as int), pat@, rep@) == replace_all(s@, pat@, rep@),
        decreases s.len() - i,
    {
        let ghost t = s@.subrange(i as int, s@.len() as int);
        proof { lemma_first_occurrence_suffix(s@, pat@, i as int, 0); }
        match find_chars(s, pat, i) {
            None => {
                let rest = slice_chars(s, i, s.len());
                append_chars(&mut out, &rest);
                assert(replace_all(t, pat@, rep@) == t);
                assert(s@.subrange(s@.len() as int, s@.len() as int) =~= Seq::<char>::empty());
                i = s.len();
                assert(replace_all(s@.subrange(i as int, s@.len() as int), pat@, rep@) =~= Seq::<char>::empty());
                assert(out@ =~= out@ + Seq::<char>::empty());
            },
            Some(p) => {
                proof { lemma_first_occurrence(s@, pat@, i as int); }
                let before = slice_chars(s, i, p);
                append_chars(&mut out, &before);
                append_chars(&mut out, rep);
                let ghost q = p - i;
                assert(t.subrange(0, q) =~= s@.subrange(i as int, p as int));
                assert(t.subrange(q + pat@.len(), t.len() as int) =~= s@.subrange(p + pat@.len(), s@.len() as int));
                assert(p + pat@.len() <= s@.len());
                assert(s@.len() == s.len() && pat@.len() == pat.len());
                i = p + pat.len();
            },
        }
    }
    assert(s@.subrange(s@.len() as int, s@.len() as int) =~= Seq::<char>::empty());
    assert(replace_all(Seq::<char>::empty(), pat@, rep@) == Seq::<char>::empty());
    assert(out@ + Seq::<char>::empty() =~= out@);
    out
}

/// A template with each placeholder `{key}` of the bindings replaced by its
/// value, one binding after another in order.
pub open spec fn substituted(template: Seq<char>, bindings: Seq<(Seq<char>, Seq<char>)>) -> Seq<char>
    decreases bindings.len(),
{
    if bindings.len() == 0 {
        template
    } else {
        let prev = substituted(template, bindings.drop_last());
        let b = bindings.last();
        replace_all(prev, seq!['{'] + b.0 + seq!['}'], b.1)
    }
}

/// The texts of key and value pairs.
pub open spec fn bindings_view(v: Seq<(String, String)>) -> Seq<(Seq<char>, Seq<char>)> {
    v.map_values(|b: (String, String)| (b.0@, b.1@))
}

/// Fills a prompt template: each binding's placeholder `{key}` is replaced by its
/// value, binding after binding, as [`substituted`] states.
pub fn substitute_placeholders(template: &str, bindings: &Vec<(String, String)>) -> (r: String)
    ensures
        r@ == substituted(template@, bindings_view(bindings@)),
{
    let ghost bv = bindings_view(bindings@);
    let mut cur = chars_of(template);
    let mut k: usize = 0;
    while k < bindings.len()
        invariant
            k <= bindings@.len(),
            bv == bindings_view(bindings@),
            cur@ == substituted(template@, bv.take(k as int)),
        decreases bindings.len() - k,
    {
        let mut pat: Vec<char> = Vec::new();
        pat.push('{');
        let key = chars_of(bindings[k].0.as_str());
        append_chars(&mut pat, &key);
        pat.push('}');
        let rep = chars_of(bindings[k].1.as_str());
        proof {
            assert(bv.take(k + 1).drop_last() =~= bv.take(k as int));
            assert(bv.take(k + 1).last() == (bindings@[k as int].0@, bindings@[k as int].1@));
            assert(pat@ =~= seq!['{'] + key@ + seq!['}']);
        }
        cur = replace_all_chars(&cur, &pat, &rep);
        k = k + 1;
    }
    assert(bv.take(bindings@.len() as int) =~= bv);
    string_from_chars(cur.as_slice())
}

/// The text a context value puts in place of its placeholder: a JSON string's
/// content, any other document's JSON text.
pub open spec fn replacement_text(d: JsonDatum) -> Seq<char> {
    match json_as_str(d.text@) {
        Some(s) => s,
        None => d.text@,
    }
}

/// The bindings of a prompt's first `n` context keys: each key that names a
/// variable, in order, with its value's replacement text.
pub open spec fn prompt_bindings(keys: Seq<String>, vars: Map<Seq<char>, JsonDatum>, n: int) -> Seq<(Seq<char>, Seq<char>)>
    decreases n,
{
    if n <= 0 {
        Seq::empty()
    } else if vars.contains_key(keys[n - 1]@) {
        prompt_bindings(keys, vars, n - 1).push((keys[n - 1]@, replacement_text(vars[keys[n - 1]@])))
    } else {
        prompt_bindings(keys, vars, n - 1)
    }
}

/// The bindings of a prompt's context keys, as [`prompt_bindings`] states.
pub fn context_bindings(keys: &Vec<String>, vars: &StringTable<JsonDatum>) -> (r: Vec<(String, String)>)
    requires
        vars.wf(),
    ensures
        bindings_view(r@) == prompt_bindings(keys@, vars.map(), keys@.len() as int),
{
    let mut r: Vec<(String, String)> = Vec::new();
    let mut i: usize = 0;
    while i < keys.len()
        invariant
            i <= keys@.len(),
            vars.wf(),
            bindings_view(r@) == prompt_bindings(keys@, vars.map(), i as int),
        decreases keys.len() - i,
    {
        match vars.get(keys[i].as_str()) {
            Some(d) => {
                let text = match read_json_str(d.text.as_str()) {
                    Some(s) => s,
                    None => d.text.clone(),
                };
                let ghost before = bindings_view(r@);
                r.push((keys[i].clone(), text));
                assert(bindings_view(r@) =~= before.push((keys@[i as int]@, replacement_text(vars.map()[keys@[i as int]@]))));
            },
            None => {},
        }
        i = i + 1;
    }
    r
}

/// The prompt of a language-model step: its template with the placeholder
/// `{key}` of each context key that names a variable replaced by that value's
/// text, key after key.
pub fn build_llm_prompt(template: &str, keys: &Vec<String>, vars: &StringTable<JsonDatum>) -> (r: String)
    requires
        vars.wf(),
    ensures
        r@ == substituted(template@, prompt_bindings(keys@, vars.map(), keys@.len() as int)),
{
    let bindings = context_bindings(keys, vars);
    substitute_placeholders(template, &bindings)
}

/// The kinds of failure an agent interaction can report.
#[derive(Debug, Clone, Copy, PartialEq, Eq, Structural)]
pub enum AgentFailureKind {
    AgentNotFound,
    InvalidConfiguration,
    GenerationFailed,
    Registry,
    LlmError,
    CapabilityError,
}

/// How a failed agent interaction is reported: its error code, its category,
/// and whether retrying is advised (for registry and language-model failures).
pub open spec fn failure_report(kind: AgentFailureKind) -> (Seq<char>, ErrorCategory, bool) {
    match kind {
        AgentFailureKind::AgentNotFound => ("AGENT_NOT_FOUND"@, ErrorCategory::Resource, false),
        AgentFailureKind::InvalidConfiguration => ("AGENT_INVALID_CONFIG"@, ErrorCategory::Configuration, false),
        AgentFailureKind::GenerationFailed => ("AGENT_GENERATION_FAILED"@, ErrorCategory::Internal, false),
        AgentFailureKind::Registry => ("AGENT_REGISTRY_ERROR"@, ErrorCategory::Internal, true),
        AgentFailureKind::LlmError => ("AGENT_LLM_ERROR"@, ErrorCategory::External, true),
        AgentFailureKind::CapabilityError => ("AGENT_CAPABILITY_ERROR"@, ErrorCategory::Validation, false),
    }
}

/// The report of a failed agent interaction, as [`failure_report`] states.
pub fn classify_agent_failure(kind: AgentFailureKind) -> (r: (&'static str, ErrorCategory, bool))
    ensures
        (r.0@, r.1, r.2) == failure_report(kind),
{
    match kind {
        AgentFailureKind::AgentNotFound => ("AGENT_NOT_FOUND", ErrorCategory::Resource, false),
        AgentFailureKind::InvalidConfiguration => ("AGENT_INVALID_CONFIG", ErrorCategory::Configuration, false),
        AgentFailureKind::GenerationFailed => ("AGENT_GENERATION_FAILED", ErrorCategory::Internal, false),
        AgentFailureKind::Registry => ("AGENT_REGISTRY_ERROR", ErrorCategory::Internal, true),
        AgentFailureKind::LlmError => ("AGENT_LLM_ERROR", ErrorCategory::External, true),
        AgentFailureKind::CapabilityError => ("AGENT_CAPABILITY_ERROR", ErrorCategory::Validation, false),
    }
}

/// The priority label and message of a task completed without a task system.
pub fn fallback_task_outcome(priority: TaskPriority) -> (r: (&'static str, &'static str))
    ensures
        priority == TaskPriority::Critical ==> r.0@ == "critical"@ && r.1@ == "Critical task completed successfully"@,
        priority == TaskPriority::High ==> r.0@ == "high"@ && r.1@ == "High priority task completed"@,
        priority != TaskPriority::Critical && priority != TaskPriority::High
            ==> r.0@ == "normal"@ && r.1@ == "Task completed"@,
{
    match priority {
        TaskPriority::Critical => ("critical", "Critical task completed successfully"),
        TaskPriority::High => ("high", "High priority task completed"),
        _ => ("normal", "Task completed"),
    }
}

/// The resources a task execution is reported to use: a tenth of its duration
/// as CPU time, half its memory requirement (256 MB when none) as peak memory.
pub fn task_resource_usage(duration_ms: u64, memory_mb: Option<u64>) -> (u: ResourceUsageInfo)
    ensures
        u.cpu_time_ms == duration_ms / 10,
        u.memory_peak_mb == (match memory_mb { Some(m) => m, None => 256u64 }) / 2,
        u.network_bytes == 0,
        u.storage_bytes == 0,
{
    ResourceUsageInfo {
        cpu_time_ms: duration_ms / 10,
        memory_peak_mb: (match memory_mb { Some(m) => m, None => 256 }) / 2,
        network_bytes: 0,
        storage_bytes: 0,
    }
}

/// The resources a language-model request is reported to use: a fifth of its
/// duration as CPU time, 128 MB, and the prompt's bytes over the network.
pub fn llm_resource_usage(duration_ms: u64, prompt_bytes: usize) -> (u: ResourceUsageInfo)
    ensures
        u.cpu_time_ms == duration_ms / 5,
        u.memory_peak_mb == 128,
        u.network_bytes == prompt_bytes as u64,
        u.storage_bytes == 0,
{
    ResourceUsageInfo {
        cpu_time_ms: duration_ms / 5,
        memory_peak_mb: 128,
        network_bytes: prompt_bytes as u64,
        storage_bytes: 0,
    }
}

/// The tokens a prompt of `prompt_bytes` bytes is counted as: a quarter of its bytes, as a `u32`.
pub fn tokens_consumed(prompt_bytes: usize) -> (n: u32)
    ensures
        n == #[verifier::truncate] ((prompt_bytes / 4) as u32),
{
    #[verifier::truncate] ((prompt_bytes / 4) as u32)
}

/// How long a simulated workflow takes: 800 ms in sequence, 400 ms in parallel,
/// and, adapting, 200 ms per input kept between 300 and 1000 ms.
pub open spec fn workflow_duration(mode: WorkflowExecutionMode, inputs: int) -> int {
    match mode {
        WorkflowExecutionMode::Sequential => 800,
        WorkflowExecutionMode::Parallel => 400,
        WorkflowExecutionMode::Adaptive => {
            let d = inputs * 200;
            if d < 300 { 300 } else if d > 1000 { 1000 } else { d }
        },
    }
}

/// How long a simulated workflow with `input_count` inputs takes, as [`workflow_duration`] states.
pub fn simulated_workflow_duration(mode: WorkflowExecutionMode, input_count: usize) -> (d: u64)
    requires
        input_count <= usize::MAX / 200,
    ensures
        d == workflow_duration(mode, input_count as int),
{
    match mode {
        WorkflowExecutionMode::Sequential => 800,
        WorkflowExecutionMode::Parallel => 400,
        WorkflowExecutionMode::Adaptive => {
            let d = input_count * 200;
            if d < 300 { 300 } else if d > 1000 { 1000 } else { d as u64 }
        },
    }
}

/// The strategy an adaptive workflow reports: parallel beyond five inputs, sequential otherwise.
pub fn adaptive_strategy(input_count: usize) -> (s: &'static str)
    ensures
        s@ == (if input_count > 5 { "parallel"@ } else { "sequential"@ }),
{
    if input_count > 5 { "parallel" } else { "sequential" }
}


/// The prompt a language-model step sends: the request is checked first, then
/// its template is filled from the context variables and the filled prompt is
/// checked in turn.
pub fn prepare_llm_prompt(
    config: &ValidationConfig,
    provider: &str,
    model: &str,
    temperature_in_range: bool,
    max_tokens: Option<u32>,
    prompt_template: &str,
    context_keys: &Vec<String>,
    execution_context: &ContextSnapshot,
    vars: &StringTable<JsonDatum>,
) -> (r: Result<String, AdapterError>)
    requires
        vars.wf(),
    ensures
        ({
            let first = llm_input_issue(*config, provider@, model@, temperature_in_range, max_tokens,
                prompt_template@, context_keys@, *execution_context);
            let prompt = substituted(prompt_template@, prompt_bindings(context_keys@, vars.map(), context_keys@.len() as int));
            &&& first is Some ==> verdict(r, first)
            &&& first is None ==> verdict(r, prompt_issue(prompt, config.max_prompt_length))
            &&& r matches Ok(p) ==> p@ == prompt
        }),
{
    let checked = validate_llm_request_input(config, provider, model, temperature_in_range, max_tokens,
        prompt_template, context_keys, execution_context);
    match checked {
        Err(e) => Err(e),
        Ok(()) => {
            let prompt = build_llm_prompt(prompt_template, context_keys, vars);
            match InputValidator::validate_prompt(prompt.as_str(), config) {
                Err(e) => Err(e),
                Ok(()) => Ok(prompt),
            }
        },
    }
}

/// What a task step reports when it runs without a task system.
pub struct TaskOutcome {
    pub execution_id: String,
    pub priority_label: &'static str,
    pub message: &'static str,
}

/// A task step run without a task system: its input is checked, and it then
/// completes under the execution identifier `task_<id>` with the outcome its
/// priority calls for.
pub fn simulated_task_outcome(
    config: &ValidationConfig,
    task_config: &TaskExecutionConfig,
    resource_requirements: &ResourceRequirement,
    execution_context: &ContextSnapshot,
) -> (r: Result<TaskOutcome, AdapterError>)
    ensures
        verdict(r, task_input_issue(*config, *task_config, *resource_requirements, *execution_context)),
        r matches Ok(o) ==> {
            &&& o.execution_id@ == "task_"@ + task_config.task_id@
            &&& (task_config.priority == TaskPriority::Critical ==> o.priority_label@ == "critical"@
                && o.message@ == "Critical task completed successfully"@)
            &&& (task_config.priority == TaskPriority::High ==> o.priority_label@ == "high"@
                && o.message@ == "High priority task completed"@)
            &&& (task_config.priority != TaskPriority::Critical && task_config.priority != TaskPriority::High
                ==> o.priority_label@ == "normal"@ && o.message@ == "Task completed"@)
        },
{
    match validate_task_execution_input(config, task_config, resource_requirements, execution_context) {
        Err(e) => Err(e),
        Ok(()) => {
            let (priority_label, message) = fallback_task_outcome(task_config.priority);
            Ok(TaskOutcome {
                execution_id: concat_str("task_", task_config.task_id.as_str()),
                priority_label,
                message,
            })
        },
    }
}

/// The result document of a task completed without a task system, as
/// `serde_json` writes it: its keys in order, the label and message quoted.
pub open spec fn task_document(label: Seq<char>, message: Seq<char>) -> Seq<char> {
    "{\"priority\":\""@ + label + "\",\"result\":\""@ + message + "\",\"status\":\"completed\"}"@
}

/// The record of a task step, apart from its clock times and its rates.
pub struct TaskExecutionRecord {
    pub task_id: String,
    pub result: JsonDatum,
    pub execution_id: String,
    pub duration_ms: u64,
    pub resource_usage: ResourceUsageInfo,
    pub error_details: Option<String>,
}

/// The record of a task step completed without a task system after
/// `duration_ms` milliseconds: the task's identifier, the result document
/// `{"priority": .., "result": .., "status": "completed"}`, the outcome's
/// execution identifier, the usage [`task_resource_usage`] reports, and no
/// error details.
pub fn task_execution_record(
    task_config: &TaskExecutionConfig,
    resource_requirements: &ResourceRequirement,
    outcome: TaskOutcome,
    duration_ms: u64,
) -> (r: TaskExecutionRecord)
    ensures
        r.task_id@ == task_config.task_id@,
        r.result.text@ == task_document(outcome.priority_label@, outcome.message@),
        r.result.identity@ == r.result.text@,
        r.result.truthy,
        r.execution_id == outcome.execution_id,
        r.duration_ms == duration_ms,
        r.resource_usage.cpu_time_ms == duration_ms / 10,
        r.resource_usage.memory_peak_mb == (match resource_requirements.memory_mb { Some(m) => m, None => 256u64 }) / 2,
        r.resource_usage.network_bytes == 0,
        r.resource_usage.storage_bytes == 0,
        r.error_details is None,
{
    let a = concat_str("{\"priority\":\"", outcome.priority_label);
    let b = concat_str(a.as_str(), "\",\"result\":\"");
    let c = concat_str(b.as_str(), outcome.message);
    let text = concat_str(c.as_str(), "\",\"status\":\"completed\"}");
    let identity = text.clone();
    TaskExecutionRecord {
        task_id: task_config.task_id.clone(),
        result: JsonDatum { text, identity, truthy: true },
        execution_id: outcome.execution_id,
        duration_ms,
        resource_usage: task_resource_usage(duration_ms, resource_requirements.memory_mb),
        error_details: None,
    }
}

/// The inputs a workflow step gathers from the first `n` pairs of its input
/// mapping: each parameter, in order, whose context key names a variable, with
/// that variable's value.
pub open spec fn gathered_inputs(mapping: Seq<(String, String)>, vars: Map<Seq<char>, JsonDatum>, n: int) -> Seq<(Seq<char>, JsonDatum)>
    decreases n,
{
    if n <= 0 {
        Seq::empty()
    } else if vars.contains_key(mapping[n - 1].1@) {
        gathered_inputs(mapping, vars, n - 1).push((mapping[n - 1].0@, vars[mapping[n - 1].1@]))
    } else {
        gathered_inputs(mapping, vars, n - 1)
    }
}

/// The parameters of a list of gathered inputs, by their text.
pub open spec fn inputs_view(items: Seq<(String, JsonDatum)>) -> Seq<(Seq<char>, JsonDatum)> {
    items.map_values(|p: (String, JsonDatum)| (p.0@, p.1))
}

/// The inputs of a workflow step, as [`gathered_inputs`] states: a context key
/// that names no variable contributes nothing.
pub fn gather_workflow_inputs(mapping: &Vec<(String, String)>, vars: &StringTable<JsonDatum>) -> (r: Vec<(String, JsonDatum)>)
    requires
        vars.wf(),
    ensures
        inputs_view(r@) == gathered_inputs(mapping@, vars.map(), mapping@.len() as int),
        r@.len() == gathered_inputs(mapping@, vars.map(), mapping@.len() as int).len(),
{
    let mut r: Vec<(String, JsonDatum)> = Vec::new();
    let mut i: usize = 0;
    while i < mapping.len()
        invariant
            i <= mapping@.len(),
            vars.wf(),
            inputs_view(r@) == gathered_inputs(mapping@, vars.map(), i as int),
        decreases mapping.len() - i,
    {
        match vars.get(mapping[i].1.as_str()) {
            Some(d) => {
                let ghost before = inputs_view(r@);
                r.push((mapping[i].0.clone(), d.duplicate()));
                assert(inputs_view(r@) =~= before.push((mapping@[i as int].0@, vars.map()[mapping@[i as int].1@])));
            },
            None => {},
        }
        i = i + 1;
    }
    r
}


/// How many of the first `n` bytes of a text there are.
pub open spec fn head_len(s: Seq<char>, n: usize) -> int {
    if n < encode_utf8(s).len() { n as int } else { encode_utf8(s).len() as int }
}

/// Whether the first `n` bytes of a text end on a character boundary, so that
/// they can be cut off as a text of their own (and the text's length in bytes
/// fits in a `usize`, as that of any string does).
pub open spec fn head_fits(s: Seq<char>, n: usize) -> bool {
    &&& encode_utf8(s).len() <= usize::MAX
    &&& is_char_boundary(encode_utf8(s), head_len(s, n))
}

/// The text of the first `n` bytes of `s`, all of it when it is shorter.
pub open spec fn byte_head(s: Seq<char>, n: usize) -> Seq<char> {
    decode_utf8(encode_utf8(s).subrange(0, head_len(s, n)))
}

/// The first `n` bytes of `s`, which end on a character boundary.
fn head_of(s: &str, n: usize) -> (h: &str)
    requires
        head_fits(s@, n),
    ensures
        h@ == byte_head(s@, n),
{
    let end = if n < s.len() { n } else { s.len() };
    let (h, _) = s.split_at(end);
    proof {
        encode_utf8_decode_utf8(h@);
    }
    h
}

/// The reply a language-model step gives as text when no processor is
/// configured: the first fifty bytes of its prompt and the model's name.
pub fn simulated_text_reply(prompt: &str, model: &str) -> (r: String)
    requires
        head_fits(prompt@, 50),
    ensures
        r@ == "Generated response for prompt: "@ + byte_head(prompt@, 50) + "... (using model: "@ + model@ + ")"@,
{
    let a = concat_str("Generated response for prompt: ", head_of(prompt, 50));
    let b = concat_str(a.as_str(), "... (using model: ");
    let c = concat_str(b.as_str(), model);
    concat_str(c.as_str(), ")")
}

/// The generated text in the JSON reply of a language-model step without a
/// processor: the first thirty bytes of its prompt.
pub fn simulated_json_summary(prompt: &str) -> (r: String)
    requires
        head_fits(prompt@, 30),
    ensures
        r@ == "Response for: "@ + byte_head(prompt@, 30),
{
    concat_str("Response for: ", head_of(prompt, 30))
}

/// The content of the structured reply of a language-model step without a
/// processor: the first thirty bytes of its prompt.
pub fn simulated_structured_summary(prompt: &str) -> (r: String)
    requires
        head_fits(prompt@, 30),
    ensures
        r@ == "Structured response for: "@ + byte_head(prompt@, 30),
{
    concat_str("Structured response for: ", head_of(prompt, 30))
}

/// What a workflow step records under one output mapping, given the member of
/// the result that the path names and what the path reaches as a JSON pointer
/// (looked up only when there is no such member): the member when there is one,
/// else the pointer's target.
pub fn resolve_output(member: Option<String>, pointer: Option<String>) -> (r: Option<String>)
    ensures
        r == (match member {
            Some(m) => Some(m),
            None => pointer,
        }),
{
    match member {
        Some(m) => Some(m),
        None => pointer,
    }
}

/// The outputs a workflow step maps from the first `n` pairs of its output
/// mapping: each context key, in order, whose result path resolves in the
/// result document, with the text it resolves to.
pub open spec fn mapped_outputs(doc: Seq<char>, mapping: Seq<(String, String)>, n: int) -> Seq<(Seq<char>, Seq<char>)>
    decreases n,
{
    if n <= 0 {
        Seq::empty()
    } else {
        let prev = mapped_outputs(doc, mapping, n - 1);
        let path = mapping[n - 1].1@;
        match json_member_of(doc, path) {
            Some(v) => prev.push((mapping[n - 1].0@, v)),
            None => match json_pointer_of(doc, path) {
                Some(v) => prev.push((mapping[n - 1].0@, v)),
                None => prev,
            },
        }
    }
}

/// The output of a workflow step whose result document is `result`: `None`
/// when it maps no outputs (the output is then the whole result), else the
/// context keys whose paths resolve, as [`mapped_outputs`] states.
pub fn workflow_output(result: &str, output_mapping: &Vec<(String, String)>) -> (r: Option<Vec<(String, String)>>)
    ensures
        output_mapping@.len() == 0 ==> r is None,
        output_mapping@.len() > 0 ==> (r matches Some(v)
            && pairs_view(v@) == mapped_outputs(result@, output_mapping@, output_mapping@.len() as int)),
{
    if output_mapping.len() == 0 {
        return None;
    }
    let mut r: Vec<(String, String)> = Vec::new();
    let mut i: usize = 0;
    while i < output_mapping.len()
        invariant
            i <= output_mapping@.len(),
            pairs_view(r@) == mapped_outputs(result@, output_mapping@, i as int),
        decreases output_mapping.len() - i,
    {
        let key = &output_mapping[i].0;
        let path = output_mapping[i].1.as_str();
        let member = json_member(result, path);
        let pointer = if member.is_none() { json_pointer(result, path) } else { None };
        let found = resolve_output(member, pointer);
        match found {
            Some(v) => {
                let ghost before = pairs_view(r@);
                r.push((key.clone(), v));
                assert(pairs_view(r@) =~= before.push((output_mapping@[i as int].0@, r@.last().1@)));
            },
            None => {},
        }
        i = i + 1;
    }
    Some(r)
}

} // verus!
