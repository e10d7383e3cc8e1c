use vstd::prelude::*;
use crate::orchestration::adapter_types::{AgentSelectionCriteria, InteractionOptions, ValidationConfig};
use crate::orchestration::definitions::{ResourceRequirement, TaskExecutionConfig};
use crate::orchestration::errors::{AdapterError, AdapterErrorView};
use crate::runtime::value::JsonDatum;
use crate::text::{
    byte_count, chars_of, contains_text, decimal_nat, find_chars, lowercase, push_decimal_usize,
    push_str_chars, str_eq, string_from_chars, text_len, to_lowercase, first_occurrence,
    lemma_first_occurrence, occurs_at, contains_str,
};

verus! {

/// The first of two findings, if either finds something.
pub open spec fn or_else(a: Option<Seq<char>>, b: Option<Seq<char>>) -> Option<Seq<char>> {
    match a {
        Some(m) => Some(m),
        None => b,
    }
}

/// `r` rejects the input with `issue` as an invalid-input error, or accepts it when there is none.
pub open spec fn verdict<T>(r: Result<T, AdapterError>, issue: Option<Seq<char>>) -> bool {
    match issue {
        Some(m) => r matches Err(e) && e@ == AdapterErrorView::InvalidInput(m),
        None => r is Ok,
    }
}

/// The first finding of `check` over `items`, from position `i` on.
pub open spec fn first_issue_from<A>(items: Seq<A>, i: int, check: spec_fn(A) -> Option<Seq<char>>) -> Option<Seq<char>>
    decreases items.len() - i,
{
    if i < 0 || i >= items.len() {
        None
    } else {
        or_else(check(items[i]), first_issue_from(items, i + 1, check))
    }
}

/// The finding on a name: empty, or longer than `max` bytes.
pub open spec fn name_issue(s: Seq<char>, max: usize, name: Seq<char>) -> Option<Seq<char>> {
    if s.len() == 0 {
        Some(name + " cannot be empty"@)
    } else if byte_count(s) > max {
        Some(name + " too long: '"@ + s + "' (max: "@ + decimal_nat(max as nat) + " chars)"@)
    } else {
        None
    }
}

/// The finding on a pair of names: either empty, then either too long, in that order.
pub open spec fn pair_issue(a: Seq<char>, b: Seq<char>, max_a: usize, max_b: usize, name_a: Seq<char>, name_b: Seq<char>) -> Option<Seq<char>> {
    if a.len() == 0 {
        Some(name_a + " cannot be empty"@)
    } else if b.len() == 0 {
        Some(name_b + " cannot be empty"@)
    } else {
        or_else(name_issue(a, max_a, name_a), name_issue(b, max_b, name_b))
    }
}

/// A "too many" finding: `what`, the count, and the limit.
pub open spec fn too_many(what: Seq<char>, count: nat, max: nat) -> Seq<char> {
    "Too many "@ + what + ": "@ + decimal_nat(count) + " (max: "@ + decimal_nat(max) + ")"@
}

/// The optional text of an optional string.
pub open spec fn opt_view(o: Option<String>) -> Option<Seq<char>> {
    match o {
        Some(s) => Some(s@),
        None => None,
    }
}

/// A context variable as validation sees it: its key, and its text when the value is a JSON string.
#[derive(Debug, Clone)]
pub struct ContextVariable {
    pub key: String,
    pub text: Option<String>,
}

/// The key and optional text of a context variable.
pub open spec fn variable_view(v: ContextVariable) -> (Seq<char>, Option<Seq<char>>) {
    (v.key@, opt_view(v.text))
}

/// The finding on one context variable.
pub open spec fn variable_issue(v: (Seq<char>, Option<Seq<char>>)) -> Option<Seq<char>> {
    let key = v.0;
    if key.len() == 0 {
        Some("Context variable key cannot be empty"@)
    } else if byte_count(key) > 100 {
        Some("Context variable key too long: '"@ + key + "' ("@ + decimal_nat(byte_count(key) as nat) + " chars, max: 100)"@)
    } else {
        match v.1 {
            Some(s) => if byte_count(s) > 10000 {
                Some("Context variable '"@ + key + "' value too long ("@ + decimal_nat(byte_count(s) as nat) + " chars, max: 10000)"@)
            } else {
                None
            },
            None => None,
        }
    }
}

/// The finding on a list of context variables, checked in the order given.
pub open spec fn variables_issue(vars: Seq<ContextVariable>, max: usize) -> Option<Seq<char>> {
    if vars.len() > max {
        Some(too_many("context variables"@, vars.len(), max as nat))
    } else {
        first_issue_from(vars.map_values(|v: ContextVariable| variable_view(v)), 0, |v: (Seq<char>, Option<Seq<char>>)| variable_issue(v))
    }
}

/// What validation reads of an execution context: its identifiers and its variables,
/// listed in the order in which they are to be checked.
#[derive(Debug, Clone)]
pub struct ContextSnapshot {
    pub session_id: String,
    pub flow_id: String,
    pub block_id: String,
    pub variables: Vec<ContextVariable>,
}

/// The finding on an execution context: its variables, then its identifiers.
pub open spec fn context_issue(ctx: ContextSnapshot, max_vars: usize) -> Option<Seq<char>> {
    or_else(variables_issue(ctx.variables@, max_vars),
        if ctx.session_id@.len() == 0 {
            Some("Session ID cannot be empty"@)
        } else if ctx.flow_id@.len() == 0 {
            Some("Flow ID cannot be empty"@)
        } else if ctx.block_id@.len() == 0 {
            Some("Block ID cannot be empty"@)
        } else {
            None
        })
}

/// Whether a lowercased prompt holds markup or a URL scheme that could run code.
pub open spec fn harmful(t: Seq<char>) -> bool {
    contains_text(t, "<script"@) || contains_text(t, "javascript:"@) || contains_text(t, "data:text/html"@)
}

/// The finding on a prompt.
pub open spec fn prompt_issue(prompt: Seq<char>, max: usize) -> Option<Seq<char>> {
    if prompt.len() == 0 {
        Some("Prompt cannot be empty"@)
    } else if byte_count(prompt) > max {
        Some("Prompt too long: "@ + decimal_nat(byte_count(prompt) as nat) + " characters (max: "@ + decimal_nat(max as nat) + ")"@)
    } else if harmful(lowercase(prompt)) {
        Some("Prompt contains potentially harmful content"@)
    } else {
        None
    }
}

/// Whether `s` occurs among the first `i` items.
pub open spec fn seen_before(items: Seq<String>, i: int, s: Seq<char>) -> bool {
    exists|j: int| 0 <= j < i && #[trigger] items[j]@ == s
}

/// The finding on the dependency at position `i`: empty, or named before.
pub open spec fn dependency_at_issue(deps: Seq<String>, i: int) -> Option<Seq<char>> {
    if deps[i]@.len() == 0 {
        Some("Dependency ID cannot be empty"@)
    } else if seen_before(deps, i, deps[i]@) {
        Some("Duplicate dependency found: '"@ + deps[i]@ + "'"@)
    } else {
        None
    }
}

/// The first finding on the dependencies from position `i` on.
pub open spec fn dependencies_issue_from(deps: Seq<String>, i: int) -> Option<Seq<char>>
    decreases deps.len() - i,
{
    if i < 0 || i >= deps.len() {
        None
    } else {
        or_else(dependency_at_issue(deps, i), dependencies_issue_from(deps, i + 1))
    }
}

/// The finding on a task's dependencies: too many (their count taken as a `u32`), then each in turn.
pub open spec fn dependencies_issue(deps: Seq<String>, max: u32) -> Option<Seq<char>> {
    if (#[verifier::truncate] (deps.len() as u32)) > max {
        Some(too_many("task dependencies"@, deps.len(), max as nat))
    } else {
        dependencies_issue_from(deps, 0)
    }
}

fn issue_result(issue: Option<String>) -> (r: Result<(), AdapterError>)
    ensures
        verdict(r, opt_view(issue)),
{
    match issue {
        Some(m) => Err(AdapterError::InvalidInput(m)),
        None => Ok(()),
    }
}

fn text_of(cs: Vec<char>) -> (r: Option<String>)
    ensures
        opt_view(r) == Some(cs@),
{
    Some(string_from_chars(cs.as_slice()))
}

fn fixed(s: &str) -> (r: Option<String>)
    ensures
        opt_view(r) == Some(s@),
{
    Some(String::from_str(s))
}

fn check_name(s: &str, max: usize, name: &str) -> (r: Option<String>)
    ensures
        opt_view(r) == name_issue(s@, max, name@),
{
    if s.is_empty() {
        let mut out: Vec<char> = Vec::new();
        push_str_chars(&mut out, name);
        push_str_chars(&mut out, " cannot be empty");
        return text_of(out);
    }
    if text_len(s) > max {
        let mut out: Vec<char> = Vec::new();
        push_str_chars(&mut out, name);
        push_str_chars(&mut out, " too long: '");
        push_str_chars(&mut out, s);
        push_str_chars(&mut out, "' (max: ");
        push_decimal_usize(max, &mut out);
        push_str_chars(&mut out, " chars)");
        return text_of(out);
    }
    None
}

fn check_pair(a: &str, b: &str, max_a: usize, max_b: usize, name_a: &str, name_b: &str) -> (r: Option<String>)
    ensures
        opt_view(r) == pair_issue(a@, b@, max_a, max_b, name_a@, name_b@),
{
    if a.is_empty() || b.is_empty() {
        let mut out: Vec<char> = Vec::new();
        push_str_chars(&mut out, if a.is_empty() { name_a } else { name_b });
        push_str_chars(&mut out, " cannot be empty");
        return text_of(out);
    }
    match check_name(a, max_a, name_a) {
        Some(m) => Some(m),
        None => check_name(b, max_b, name_b),
    }
}

fn check_names(items: &Vec<String>, max: usize, name: &str) -> (r: Option<String>)
    ensures
        opt_view(r) == first_issue_from(items@.map_values(|s: String| s@), 0, |s: Seq<char>| name_issue(s, max, name@)),
{
    let ghost views = items@.map_values(|s: String| s@);
    let ghost check = |s: Seq<char>| name_issue(s, max, name@);
    let mut i: usize = 0;
    while i < items.len()
        invariant
            i <= items@.len(),
            views == items@.map_values(|s: String| s@),
            check == (|s: Seq<char>| name_issue(s, max, name@)),
            first_issue_from(views, 0, check) == first_issue_from(views, i as int, check),
        decreases items.len() - i,
    {
        let found = check_name(items[i].as_str(), max, name);
        assert(views[i as int] == items@[i as int]@);
        if found.is_some() {
            return found;
        }
        i = i + 1;
    }
    None
}

fn check_pairs(
    items: &Vec<(String, String)>,
    max_a: usize,
    max_b: usize,
    name_a: &str,
    name_b: &str,
) -> (r: Option<String>)
    ensures
        opt_view(r) == first_issue_from(items@.map_values(|p: (String, String)| (p.0@, p.1@)), 0,
            |p: (Seq<char>, Seq<char>)| pair_issue(p.0, p.1, max_a, max_b, name_a@, name_b@)),
{
    let ghost views = items@.map_values(|p: (String, String)| (p.0@, p.1@));
    let ghost check = |p: (Seq<char>, Seq<char>)| pair_issue(p.0, p.1, max_a, max_b, name_a@, name_b@);
    let mut i: usize = 0;
    while i < items.len()
        invariant
            i <= items@.len(),
            views == items@.map_values(|p: (String, String)| (p.0@, p.1@)),
            check == (|p: (Seq<char>, Seq<char>)| pair_issue(p.0, p.1, max_a, max_b, name_a@, name_b@)),
            first_issue_from(views, 0, check) == first_issue_from(views, i as int, check),
        decreases items.len() - i,
    {
        let found = check_pair(items[i].0.as_str(), items[i].1.as_str(), max_a, max_b, name_a, name_b);
        assert(views[i as int] == (items@[i as int].0@, items@[i as int].1@));
        if found.is_some() {
            return found;
        }
        i = i + 1;
    }
    None
}

fn too_many_text(what: &str, count: usize, max: usize) -> (r: Option<String>)
    ensures
        opt_view(r) == Some(too_many(what@, count as nat, max as nat)),
{
    let mut out: Vec<char> = Vec::new();
    push_str_chars(&mut out, "Too many ");
    push_str_chars(&mut out, what);
    push_str_chars(&mut out, ": ");
    push_decimal_usize(count, &mut out);
    push_str_chars(&mut out, " (max: ");
    push_decimal_usize(max, &mut out);
    push_str_chars(&mut out, ")");
    text_of(out)
}

fn check_variable(v: &ContextVariable) -> (r: Option<String>)
    ensures
        opt_view(r) == variable_issue(variable_view(*v)),
{
    let key = v.key.as_str();
    if key.is_empty() {
        return fixed("Context variable key cannot be empty");
    }
    let key_len = text_len(key);
    if key_len > 100 {
        let mut out: Vec<char> = Vec::new();
        push_str_chars(&mut out, "Context variable key too long: '");
        push_str_chars(&mut out, key);
        push_str_chars(&mut out, "' (");
        push_decimal_usize(key_len, &mut out);
        push_str_chars(&mut out, " chars, max: 100)");
        return text_of(out);
    }
    match &v.text {
        Some(s) => {
            let n = text_len(s.as_str());
            if n > 10000 {
                let mut out: Vec<char> = Vec::new();
                push_str_chars(&mut out, "Context variable '");
                push_str_chars(&mut out, key);
                push_str_chars(&mut out, "' value too long (");
                push_decimal_usize(n, &mut out);
                push_str_chars(&mut out, " chars, max: 10000)");
                text_of(out)
            } else {
                None
            }
        },
        None => None,
    }
}

fn check_variables(vars: &Vec<ContextVariable>, max: usize) -> (r: Option<String>)
    ensures
        opt_view(r) == variables_issue(vars@, max),
{
    if vars.len() > max {
        return too_many_text("context variables", vars.len(), max);
    }
    let ghost views = vars@.map_values(|v: ContextVariable| variable_view(v));
    let ghost check = |v: (Seq<char>, Option<Seq<char>>)| variable_issue(v);
    let mut i: usize = 0;
    while i < vars.len()
        invariant
            i <= vars@.len(),
            vars@.len() <= max,
            views == vars@.map_values(|v: ContextVariable| variable_view(v)),
            check == (|v: (Seq<char>, Option<Seq<char>>)| variable_issue(v)),
            first_issue_from(views, 0, check) == first_issue_from(views, i as int, check),
        decreases vars.len() - i,
    {
        let found = check_variable(&vars[i]);
        assert(views[i as int] == variable_view(vars@[i as int]));
        if found.is_some() {
            return found;
        }
        i = i + 1;
    }
    None
}

fn check_context(ctx: &ContextSnapshot, max_vars: usize) -> (r: Option<String>)
    ensures
        opt_view(r) == context_issue(*ctx, max_vars),
{
    let found = check_variables(&ctx.variables, max_vars);
    if found.is_some() {
        return found;
    }
    if ctx.session_id.as_str().is_empty() {
        return fixed("Session ID cannot be empty");
    }
    if ctx.flow_id.as_str().is_empty() {
        return fixed("Flow ID cannot be empty");
    }
    if ctx.block_id.as_str().is_empty() {
        return fixed("Block ID cannot be empty");
    }
    None
}

fn check_prompt(prompt: &str, max: usize) -> (r: Option<String>)
    ensures
        opt_view(r) == prompt_issue(prompt@, max),
{
    if prompt.is_empty() {
        return fixed("Prompt cannot be empty");
    }
    let n = text_len(prompt);
    if n > max {
        let mut out: Vec<char> = Vec::new();
        push_str_chars(&mut out, "Prompt too long: ");
        push_decimal_usize(n, &mut out);
        push_str_chars(&mut out, " characters (max: ");
        push_decimal_usize(max, &mut out);
        push_str_chars(&mut out, ")");
        return text_of(out);
    }
    let lower = to_lowercase(prompt);
    let lower_chars = chars_of(lower.as_str());
    if contains_str(&lower_chars, "<script")
        || contains_str(&lower_chars, "javascript:")
        || contains_str(&lower_chars, "data:text/html") {
        return fixed("Prompt contains potentially harmful content");
    }
    None
}

fn check_dependencies(deps: &Vec<String>, max: u32) -> (r: Option<String>)
    ensures
        opt_view(r) == dependencies_issue(deps@, max),
{
    if (#[verifier::truncate] (deps.len() as u32)) > max {
        return too_many_text("task dependencies", deps.len(), max as usize);
    }
    let mut i: usize = 0;
    while i < deps.len()
        invariant
            i <= deps@.len(),
            (#[verifier::truncate] (deps@.len() as u32)) <= max,
            dependencies_issue(deps@, max) == dependencies_issue_from(deps@, i as int),
        decreases deps.len() - i,
    {
        let dep = deps[i].as_str();
        if dep.is_empty() {
            return fixed("Dependency ID cannot be empty");
        }
        let mut j: usize = 0;
        while j < i
            invariant
                j <= i,
                i < deps@.len(),
                dep@ == deps@[i as int]@,
                dep@.len() > 0,
                (#[verifier::truncate] (deps@.len() as u32)) <= max,
                dependencies_issue(deps@, max) == dependencies_issue_from(deps@, i as int),
                forall|m: int| 0 <= m < j ==> #[trigger] deps@[m]@ != dep@,
            decreases i - j,
        {
            if str_eq(deps[j].as_str(), dep) {
                let mut out: Vec<char> = Vec::new();
                push_str_chars(&mut out, "Duplicate dependency found: '");
                push_str_chars(&mut out, dep);
                push_str_chars(&mut out, "'");
                proof {
                    assert(deps@[j as int]@ == dep@);
                    assert(seen_before(deps@, i as int, dep@));
                    assert(dependency_at_issue(deps@, i as int) == Some("Duplicate dependency found: '"@ + dep@ + "'"@));
                    assert(out@ == "Duplicate dependency found: '"@ + dep@ + "'"@);
                }
                return text_of(out);
            }
            j = j + 1;
        }
        assert(!seen_before(deps@, i as int, deps@[i as int]@));
        i = i + 1;
    }
    None
}

/// Checks adapter input against the configured limits.
pub struct InputValidator;

impl InputValidator {
    /// Accepts a prompt that is not empty, not longer than the configured number of
    /// bytes, and, once lowercased, holds none of `<script`, `javascript:` and
    /// `data:text/html`.
    pub fn validate_prompt(prompt: &str, config: &ValidationConfig) -> (r: Result<(), AdapterError>)
        ensures
            verdict(r, prompt_issue(prompt@, config.max_prompt_length)),
    {
        issue_result(check_prompt(prompt, config.max_prompt_length))
    }

    /// Accepts at most the configured number of context variables, each with a key
    /// of 1 to 100 bytes and, when it is a string, a value of at most 10000 bytes;
    /// the variables are checked in the order given.
    pub fn validate_context_variables(variables: &Vec<ContextVariable>, config: &ValidationConfig) -> (r: Result<(), AdapterError>)
        ensures
            verdict(r, variables_issue(variables@, config.max_context_variables)),
    {
        issue_result(check_variables(variables, config.max_context_variables))
    }

    /// A timeout of 1 to 3600 seconds as given, or the configured default when none is given.
    pub fn validate_timeout(timeout_seconds: Option<u64>, config: &ValidationConfig) -> (r: Result<u64, AdapterError>)
        ensures
            verdict(r, timeout_issue(timeout_seconds)),
            r is Ok ==> r == Ok::<u64, AdapterError>(match timeout_seconds {
                Some(t) => t,
                None => config.default_timeout_seconds,
            }),
    {
        match timeout_seconds {
            Some(timeout) => {
                if timeout == 0 {
                    return Err(AdapterError::InvalidInput(String::from_str("Timeout must be greater than 0")));
                }
                if timeout > 3600 {
                    return Err(AdapterError::InvalidInput(String::from_str("Timeout cannot exceed 1 hour (3600 seconds)")));
                }
                Ok(timeout)
            },
            None => Ok(config.default_timeout_seconds),
        }
    }

    /// Accepts at most the configured number of retries.
    pub fn validate_retry_attempts(attempts: u32, config: &ValidationConfig) -> (r: Result<(), AdapterError>)
        ensures
            verdict(r, if attempts > config.max_retry_attempts {
                Some(too_many("retry attempts"@, attempts as nat, config.max_retry_attempts as nat))
            } else {
                None
            }),
    {
        if attempts > config.max_retry_attempts {
            return issue_result(too_many_text("retry attempts", attempts as usize, config.max_retry_attempts as usize));
        }
        Ok(())
    }

    /// Accepts at most the configured number of dependencies (counted as a `u32`),
    /// none empty and none named twice; they are checked in order.
    pub fn validate_task_dependencies(dependencies: &Vec<String>, config: &ValidationConfig) -> (r: Result<(), AdapterError>)
        ensures
            verdict(r, dependencies_issue(dependencies@, config.max_dependency_depth)),
    {
        issue_result(check_dependencies(dependencies, config.max_dependency_depth))
    }
}

/// The finding on an optional timeout of up to an hour.
pub open spec fn timeout_issue(t: Option<u64>) -> Option<Seq<char>> {
    match t {
        Some(t) => if t == 0 {
            Some("Timeout must be greater than 0"@)
        } else if t > 3600 {
            Some("Timeout cannot exceed 1 hour (3600 seconds)"@)
        } else {
            None
        },
        None => None,
    }
}

/// The finding on a task's resource needs: CPU cores, memory and storage within their bounds.
pub open spec fn requirement_issue(res: ResourceRequirement) -> Option<Seq<char>> {
    or_else(
        match res.cpu_cores {
            Some(c) => if c == 0 {
                Some("CPU cores must be greater than 0"@)
            } else if c > 64 {
                Some("CPU cores cannot exceed 64"@)
            } else {
                None
            },
            None => None,
        },
        or_else(
            match res.memory_mb {
                Some(m) => if m == 0 {
                    Some("Memory requirement must be greater than 0"@)
                } else if m > 1024 * 1024 {
                    Some("Memory requirement cannot exceed 1TB"@)
                } else {
                    None
                },
                None => None,
            },
            match res.storage_mb {
                Some(st) => if st > 1024 * 1024 * 10 {
                    Some("Storage requirement cannot exceed 10TB"@)
                } else {
                    None
                },
                None => None,
            },
        ),
    )
}

/// The finding on the input of a task execution step, checked in the order the fields are listed here.
pub open spec fn task_input_issue(
    config: ValidationConfig,
    task: TaskExecutionConfig,
    res: ResourceRequirement,
    ctx: ContextSnapshot,
) -> Option<Seq<char>> {
    or_else(name_issue(task.task_id@, 100, "Task ID"@),
    or_else(dependencies_issue(task.dependencies@, config.max_dependency_depth),
    or_else(
        if task.completion_criteria.success_conditions@.len() == 0
            && task.completion_criteria.failure_conditions@.len() == 0 {
            Some("At least one success or failure condition must be specified"@)
        } else {
            None
        },
    or_else(
        match task.completion_criteria.timeout_secs {
            Some(t) => if t == 0 {
                Some("Timeout must be greater than 0"@)
            } else if t > 86400 {
                Some("Timeout cannot exceed 24 hours (86400 seconds)"@)
            } else {
                None
            },
            None => None,
        },
    or_else(requirement_issue(res),
        context_issue(ctx, config.max_context_variables))))))
}

/// The texts of a list of pairs of strings.
pub open spec fn pairs_view(items: Seq<(String, String)>) -> Seq<(Seq<char>, Seq<char>)> {
    items.map_values(|p: (String, String)| (p.0@, p.1@))
}

/// The finding on the input of a workflow invocation; the mappings are checked in the order given.
pub open spec fn workflow_input_issue(
    config: ValidationConfig,
    workflow_id: Seq<char>,
    input_mapping: Seq<(String, String)>,
    output_mapping: Seq<(String, String)>,
    ctx: ContextSnapshot,
) -> Option<Seq<char>> {
    or_else(name_issue(workflow_id, 100, "Workflow ID"@),
    or_else(if input_mapping.len() > 50 { Some("Too many input mappings (max: 50)"@) } else { None },
    or_else(first_issue_from(pairs_view(input_mapping), 0,
        |p: (Seq<char>, Seq<char>)| pair_issue(p.0, p.1, 50, 50, "Workflow parameter name"@, "Context key"@)),
    or_else(if output_mapping.len() > 50 { Some("Too many output mappings (max: 50)"@) } else { None },
    or_else(first_issue_from(pairs_view(output_mapping), 0,
        |p: (Seq<char>, Seq<char>)| pair_issue(p.0, p.1, 50, 100, "Output context key"@, "Result path"@)),
        context_issue(ctx, config.max_context_variables))))))
}

/// The texts of a list of strings.
pub open spec fn texts_view(items: Seq<String>) -> Seq<Seq<char>> {
    items.map_values(|s: String| s@)
}

/// The finding on the input of a language-model request; `temperature_in_range`
/// tells whether the configured temperature, if any, lies between 0 and 2.
pub open spec fn llm_input_issue(
    config: ValidationConfig,
    provider: Seq<char>,
    model: Seq<char>,
    temperature_in_range: bool,
    max_tokens: Option<u32>,
    prompt_template: Seq<char>,
    context_keys: Seq<String>,
    ctx: ContextSnapshot,
) -> Option<Seq<char>> {
    if provider.len() == 0 {
        Some("LLM provider cannot be empty"@)
    } else if model.len() == 0 {
        Some("LLM model cannot be empty"@)
    } else if !temperature_in_range {
        Some("Temperature must be between 0.0 and 2.0"@)
    } else {
        or_else(
            match max_tokens {
                Some(t) => if t == 0 {
                    Some("Max tokens must be greater than 0"@)
                } else if t > 100000 {
                    Some("Max tokens cannot exceed 100,000"@)
                } else {
                    None
                },
                None => None,
            },
        or_else(prompt_issue(prompt_template, config.max_prompt_length),
        or_else(if context_keys.len() > 50 { Some("Too many context keys (max: 50)"@) } else { None },
        or_else(first_issue_from(texts_view(context_keys), 0, |k: Seq<char>| name_issue(k, 100, "Context key"@)),
            context_issue(ctx, config.max_context_variables)))))
    }
}

/// The finding on the input of an agent interaction.
pub open spec fn interaction_input_issue(
    config: ValidationConfig,
    criteria: AgentSelectionCriteria,
    input_text: Seq<char>,
    options: InteractionOptions,
    ctx: ContextSnapshot,
) -> Option<Seq<char>> {
    if criteria.required_capabilities@.len() == 0 && criteria.preferred_tags@.len() == 0 {
        Some("At least one required capability or preferred tag must be specified"@)
    } else {
        or_else(first_issue_from(texts_view(criteria.required_capabilities@), 0, |c: Seq<char>| name_issue(c, 50, "Capability name"@)),
        or_else(first_issue_from(texts_view(criteria.preferred_tags@), 0, |t: Seq<char>| name_issue(t, 30, "Tag name"@)),
        or_else(
            match criteria.max_concurrent_tasks {
                Some(m) => if m == 0 {
                    Some("Max concurrent tasks must be greater than 0"@)
                } else if m > 100 {
                    Some("Max concurrent tasks cannot exceed 100"@)
                } else {
                    None
                },
                None => None,
            },
        or_else(if byte_count(input_text) > 100000 { Some("Input data too large (max: 100KB)"@) } else { None },
        or_else(timeout_issue(options.timeout_seconds),
        or_else(
            if options.retry_attempts > config.max_retry_attempts {
                Some(too_many("retry attempts"@, options.retry_attempts as nat, config.max_retry_attempts as nat))
            } else {
                None
            },
            context_issue(ctx, config.max_context_variables)))))))
    }
}

fn check_requirement(res: &ResourceRequirement) -> (r: Option<String>)
    ensures
        opt_view(r) == requirement_issue(*res),
{
    match res.cpu_cores {
        Some(c) => {
            if c == 0 {
                return fixed("CPU cores must be greater than 0");
            }
            if c > 64 {
                return fixed("CPU cores cannot exceed 64");
            }
        },
        None => {},
    }
    match res.memory_mb {
        Some(m) => {
            if m == 0 {
                return fixed("Memory requirement must be greater than 0");
            }
            if m > 1024 * 1024 {
                return fixed("Memory requirement cannot exceed 1TB");
            }
        },
        None => {},
    }
    match res.storage_mb {
        Some(st) => {
            if st > 1024 * 1024 * 10 {
                return fixed("Storage requirement cannot exceed 10TB");
            }
        },
        None => {},
    }
    None
}

/// Validates the input of a task execution step: the task identifier, its
/// dependencies, its completion criteria and timeout (up to a day), its CPU,
/// memory and storage needs, and the execution context.
pub fn validate_task_execution_input(
    config: &ValidationConfig,
    task_config: &TaskExecutionConfig,
    resource_requirements: &ResourceRequirement,
    execution_context: &ContextSnapshot,
) -> (r: Result<(), AdapterError>)
    ensures
        verdict(r, task_input_issue(*config, *task_config, *resource_requirements, *execution_context)),
{
    let found = check_name(task_config.task_id.as_str(), 100, "Task ID");
    if found.is_some() {
        return issue_result(found);
    }
    let found = check_dependencies(&task_config.dependencies, config.max_dependency_depth);
    if found.is_some() {
        return issue_result(found);
    }
    if task_config.completion_criteria.success_conditions.len() == 0
        && task_config.completion_criteria.failure_conditions.len() == 0 {
        return issue_result(fixed("At least one success or failure condition must be specified"));
    }
    match task_config.completion_criteria.timeout_secs {
        Some(t) => {
            if t == 0 {
                return issue_result(fixed("Timeout must be greater than 0"));
            }
            if t > 86400 {
                return issue_result(fixed("Timeout cannot exceed 24 hours (86400 seconds)"));
            }
        },
        None => {},
    }
    let found = check_requirement(resource_requirements);
    if found.is_some() {
        return issue_result(found);
    }
    issue_result(check_context(execution_context, config.max_context_variables))
}

/// Validates the input of a language-model request: provider and model named,
/// the temperature in range, 1 to 100000 tokens when bounded, the prompt
/// template, at most fifty context keys of 1 to 100 bytes, and the execution context.
pub fn validate_llm_request_input(
    config: &ValidationConfig,
    provider: &str,
    model: &str,
    temperature_in_range: bool,
    max_tokens: Option<u32>,
    prompt_template: &str,
    context_keys: &Vec<String>,
    execution_context: &ContextSnapshot,
) -> (r: Result<(), AdapterError>)
    ensures
        verdict(r, llm_input_issue(*config, provider@, model@, temperature_in_range, max_tokens,
            prompt_template@, context_keys@, *execution_context)),
{
    if provider.is_empty() {
        return issue_result(fixed("LLM provider cannot be empty"));
    }
    if model.is_empty() {
        return issue_result(fixed("LLM model cannot be empty"));
    }
    if !temperature_in_range {
        return issue_result(fixed("Temperature must be between 0.0 and 2.0"));
    }
    match max_tokens {
        Some(t) => {
            if t == 0 {
                return issue_result(fixed("Max tokens must be greater than 0"));
            }
            if t > 100000 {
                return issue_result(fixed("Max tokens cannot exceed 100,000"));
            }
        },
        None => {},
    }
    let found = check_prompt(prompt_template, config.max_prompt_length);
    if found.is_some() {
        return issue_result(found);
    }
    if context_keys.len() > 50 {
        return issue_result(fixed("Too many context keys (max: 50)"));
    }
    let found = check_names(context_keys, 100, "Context key");
    if found.is_some() {
        return issue_result(found);
    }
    issue_result(check_context(execution_context, config.max_context_variables))
}

/// Validates the input of an agent interaction: some capability or tag named,
/// each within its bounds, a task limit of 1 to 100 when set, input data of at
/// most 100000 bytes of JSON text, the timeout and retries, and the execution context.
pub fn validate_interaction_input(
    config: &ValidationConfig,
    criteria: &AgentSelectionCriteria,
    input_data: &JsonDatum,
    options: &InteractionOptions,
    execution_context: &ContextSnapshot,
) -> (r: Result<(), AdapterError>)
    ensures
        verdict(r, interaction_input_issue(*config, *criteria, input_data.text@, *options, *execution_context)),
{
    if criteria.required_capabilities.len() == 0 && criteria.preferred_tags.len() == 0 {
        return issue_result(fixed("At least one required capability or preferred tag must be specified"));
    }
    let found = check_names(&criteria.required_capabilities, 50, "Capability name");
    if found.is_some() {
        return issue_result(found);
    }
    let found = check_names(&criteria.preferred_tags, 30, "Tag name");
    if found.is_some() {
        return issue_result(found);
    }
    match criteria.max_concurrent_tasks {
        Some(m) => {
            if m == 0 {
                return issue_result(fixed("Max concurrent tasks must be greater than 0"));
            }
            if m > 100 {
                return issue_result(fixed("Max concurrent tasks cannot exceed 100"));
            }
        },
        None => {},
    }
    if text_len(input_data.text.as_str()) > 100000 {
        return issue_result(fixed("Input data too large (max: 100KB)"));
    }
    match options.timeout_seconds {
        Some(t) => {
            if t == 0 {
                return issue_result(fixed("Timeout must be greater than 0"));
            }
            if t > 3600 {
                return issue_result(fixed("Timeout cannot exceed 1 hour (3600 seconds)"));
            }
        },
        None => {},
    }
    if options.retry_attempts > config.max_retry_attempts {
        return issue_result(too_many_text("retry attempts", options.retry_attempts as usize, config.max_retry_attempts as usize));
    }
    issue_result(check_context(execution_context, config.max_context_variables))
}

/// The adapter that invokes sub-workflows, with the limits its input is checked against.
pub struct WorkflowAdapter {
    pub validation_config: ValidationConfig,
}

impl WorkflowAdapter {
    /// An adapter with the default limits.
    pub fn new() -> (a: Self)
        ensures
            a.validation_config.max_prompt_length == crate::orchestration::adapter_types::DEFAULT_MAX_PROMPT_LENGTH,
            a.validation_config.max_retry_attempts == crate::orchestration::adapter_types::DEFAULT_MAX_RETRY_ATTEMPTS,
            a.validation_config.default_timeout_seconds == crate::orchestration::adapter_types::DEFAULT_TIMEOUT_SECONDS,
            a.validation_config.max_context_variables == 100,
            a.validation_config.max_dependency_depth == 10,
    {
        WorkflowAdapter { validation_config: ValidationConfig::default() }
    }

    /// An adapter with the given limits.
    pub fn with_config(validation_config: ValidationConfig) -> (a: Self)
        ensures
            a.validation_config == validation_config,
    {
        WorkflowAdapter { validation_config }
    }

    /// Validates the input of a workflow invocation: the workflow identifier, at most
    /// fifty input and fifty output mappings with names within their bounds (checked
    /// in the order given), and the execution context.
    pub fn validate_workflow_invocation_input(
        &self,
        workflow_id: &str,
        input_mapping: &Vec<(String, String)>,
        output_mapping: &Vec<(String, String)>,
        execution_context: &ContextSnapshot,
    ) -> (r: Result<(), AdapterError>)
        ensures
            verdict(r, workflow_input_issue(self.validation_config, workflow_id@, input_mapping@, output_mapping@, *execution_context)),
    {
        let found = check_name(workflow_id, 100, "Workflow ID");
        if found.is_some() {
            return issue_result(found);
        }
        if input_mapping.len() > 50 {
            return issue_result(fixed("Too many input mappings (max: 50)"));
        }
        let found = check_pairs(input_mapping, 50, 50, "Workflow parameter name", "Context key");
        if found.is_some() {
            return issue_result(found);
        }
        if output_mapping.len() > 50 {
            return issue_result(fixed("Too many output mappings (max: 50)"));
        }
        let found = check_pairs(output_mapping, 50, 100, "Output context key", "Result path");
        if found.is_some() {
            return issue_result(found);
        }
        issue_result(check_context(execution_context, self.validation_config.max_context_variables))
    }
}

} // verus!
