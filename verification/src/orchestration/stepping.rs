use vstd::prelude::*;
use crate::orchestration::adapter_types::{
    AgentSelectionCriteria, ExecutionMode, InteractionOptions, Priority,
};
use crate::orchestration::errors::{OrchestrationError, OrchestrationErrorKind};
use crate::orchestration::flow::{BlockOutline, BlockShape};
use crate::text::{
    chars_of, concat_str, contains_str, contains_text, find_chars, first_occurrence,
    lemma_first_occurrence, lowercase, occurs_at, push_str_chars, str_eq, string_from_chars, to_lowercase,
};
use crate::textops::{slice_chars, trim, trim_chars, trim_quote_chars, trim_quotes};

verus! {

/// How an agent step names the agent it wants. `Dynamic` selects by criteria
/// that the step's selection does not read.
#[derive(Debug, Clone)]
pub enum AgentSelector {
    ById(String),
    ByCapability(Vec<String>),
    ByTag(Vec<String>),
    Dynamic,
    BestAvailable,
}

/// The texts of a list of strings.
pub open spec fn texts(v: Seq<String>) -> Seq<Seq<char>> {
    v.map_values(|s: String| s@)
}

/// The selection criteria an agent step uses: capabilities or tags as named, an
/// identifier as the single tag `id:<id>` without excluding busy agents or
/// bounding their tasks; otherwise busy agents are excluded and at most ten
/// concurrent tasks allowed.
pub open spec fn criteria_matches(selector: AgentSelector, c: AgentSelectionCriteria) -> bool {
    match selector {
        AgentSelector::ByCapability(caps) =>
            texts(c.required_capabilities@) == texts(caps@) && c.preferred_tags@.len() == 0
                && c.exclude_busy && c.max_concurrent_tasks == Some(10u32),
        AgentSelector::ByTag(tags) =>
            c.required_capabilities@.len() == 0 && texts(c.preferred_tags@) == texts(tags@)
                && c.exclude_busy && c.max_concurrent_tasks == Some(10u32),
        AgentSelector::ById(id) =>
            c.required_capabilities@.len() == 0 && texts(c.preferred_tags@) == seq!["id:"@ + id@]
                && !c.exclude_busy && c.max_concurrent_tasks is None,
        _ =>
            c.required_capabilities@.len() == 0 && c.preferred_tags@.len() == 0
                && c.exclude_busy && c.max_concurrent_tasks == Some(10u32),
    }
}

pub(crate) fn copy_texts(v: &Vec<String>) -> (r: Vec<String>)
    ensures
        texts(r@) == texts(v@),
{
    let mut r: Vec<String> = Vec::new();
    let mut i: usize = 0;
    while i < v.len()
        invariant
            i <= v@.len(),
            texts(r@) == texts(v@).take(i as int),
        decreases v.len() - i,
    {
        let c = v[i].clone();
        let ghost before = texts(r@);
        r.push(c);
        assert(texts(r@) =~= before.push(c@));
        i = i + 1;
        assert(texts(r@) =~= texts(v@).take(i as int));
    }
    assert(texts(v@).take(v@.len() as int) =~= texts(v@));
    r
}

/// The selection criteria for an agent step's selector.
pub fn selection_criteria_for(selector: &AgentSelector) -> (c: AgentSelectionCriteria)
    ensures
        criteria_matches(*selector, c),
{
    match selector {
        AgentSelector::ByCapability(caps) => {
            let none: Vec<String> = Vec::new();
            AgentSelectionCriteria {
                required_capabilities: copy_texts(caps),
                preferred_tags: none,
                exclude_busy: true,
                max_concurrent_tasks: Some(10),
            }
        },
        AgentSelector::ByTag(tags) => {
            let none: Vec<String> = Vec::new();
            AgentSelectionCriteria {
                required_capabilities: none,
                preferred_tags: copy_texts(tags),
                exclude_busy: true,
                max_concurrent_tasks: Some(10),
            }
        },
        AgentSelector::ById(id) => {
            let none: Vec<String> = Vec::new();
            let mut tags: Vec<String> = Vec::new();
            tags.push(concat_str("id:", id.as_str()));
            assert(texts(tags@) =~= seq!["id:"@ + id@]);
            AgentSelectionCriteria {
                required_capabilities: none,
                preferred_tags: tags,
                exclude_busy: false,
                max_concurrent_tasks: None,
            }
        },
        _ => {
            let none: Vec<String> = Vec::new();
            let no_tags: Vec<String> = Vec::new();
            AgentSelectionCriteria {
                required_capabilities: none,
                preferred_tags: no_tags,
                exclude_busy: true,
                max_concurrent_tasks: Some(10),
            }
        },
    }
}

/// The options of an agent step: its timeout, the retry configuration's attempts
/// (three without one), normal priority, run synchronously.
pub fn interaction_options_for(timeout_secs: Option<u64>, retry_max_attempts: Option<u32>) -> (o: InteractionOptions)
    ensures
        o.timeout_seconds == timeout_secs,
        o.retry_attempts == (match retry_max_attempts { Some(n) => n, None => 3u32 }),
        o.priority == Priority::Normal,
        o.execution_mode == ExecutionMode::Synchronous,
{
    InteractionOptions {
        timeout_seconds: timeout_secs,
        retry_attempts: match retry_max_attempts { Some(n) => n, None => 3 },
        priority: Priority::Normal,
        execution_mode: ExecutionMode::Synchronous,
    }
}

/// The context key holding a loop's position.
pub fn loop_index_key(loop_id: &str) -> (k: String)
    ensures
        k@ == "__loop_"@ + loop_id@ + "_index"@,
{
    let mut out: Vec<char> = Vec::new();
    push_str_chars(&mut out, "__loop_");
    push_str_chars(&mut out, loop_id);
    push_str_chars(&mut out, "_index");
    string_from_chars(out.as_slice())
}

/// The context key holding the snapshot of the array a loop walks.
pub fn loop_array_key(loop_id: &str) -> (k: String)
    ensures
        k@ == "__loop_"@ + loop_id@ + "_array"@,
{
    let mut out: Vec<char> = Vec::new();
    push_str_chars(&mut out, "__loop_");
    push_str_chars(&mut out, loop_id);
    push_str_chars(&mut out, "_array");
    string_from_chars(out.as_slice())
}

/// What a for-each block does next: run its body on the item at `index`
/// (recording the array first when no snapshot was kept), or clear its state and leave.
#[derive(Debug, Clone, Copy, PartialEq, Eq, Structural)]
pub enum LoopStep {
    Enter { index: usize, record_snapshot: bool },
    Leave,
}

/// The next step of a for-each block, from its stored position (read as an
/// integer, zero when absent, then taken as a `usize`), the length of the array
/// it walks when there is one, and whether a snapshot of it is kept.
pub fn foreach_step(stored_index: Option<i64>, array_len: Option<usize>, has_snapshot: bool) -> (s: LoopStep)
    ensures
        s == (match array_len {
            Some(n) => {
                let idx = #[verifier::truncate] ((match stored_index { Some(i) => i, None => 0i64 }) as usize);
                if idx < n {
                    LoopStep::Enter { index: idx, record_snapshot: !has_snapshot }
                } else {
                    LoopStep::Leave
                }
            },
            None => LoopStep::Leave,
        }),
{
    let raw: i64 = match stored_index { Some(i) => i, None => 0 };
    let idx: usize = #[verifier::truncate] (raw as usize);
    match array_len {
        Some(n) => if idx < n {
            LoopStep::Enter { index: idx, record_snapshot: !has_snapshot }
        } else {
            LoopStep::Leave
        },
        None => LoopStep::Leave,
    }
}

/// The position a loop moves to when its body continues: one past the stored position (zero when absent).
pub fn next_loop_index(stored_index: Option<i64>) -> (n: i64)
    requires
        stored_index != Some(i64::MAX),
    ensures
        n == (match stored_index { Some(i) => i, None => 0i64 }) + 1,
{
    match stored_index {
        Some(i) => i + 1,
        None => 1,
    }
}

/// Whether a block is a for-each block of the loop named `loop_id`.
pub open spec fn loop_named(b: BlockOutline, loop_id: Seq<char>) -> bool {
    match b.shape {
        BlockShape::ForEach { loop_id: l, .. } => l@ == loop_id,
        _ => false,
    }
}

/// The exit block of a for-each block.
pub open spec fn exit_of(b: BlockOutline) -> Seq<char> {
    match b.shape {
        BlockShape::ForEach { exit_block_id, .. } => exit_block_id@,
        _ => Seq::empty(),
    }
}

/// `r` reports a validation error with message `msg`.
pub open spec fn rejected(r: Result<String, OrchestrationError>, msg: Seq<char>) -> bool {
    r matches Err(e) && e@ == (OrchestrationErrorKind::Validation, msg)
}

/// `r` holds the text `t`.
pub open spec fn yields(r: Result<String, OrchestrationError>, t: Seq<char>) -> bool {
    r matches Ok(s) && s@ == t
}

/// Position `i` holds the first for-each block of the loop named `loop_id`.
pub open spec fn first_loop(blocks: Seq<BlockOutline>, loop_id: Seq<char>, i: int) -> bool {
    &&& 0 <= i < blocks.len()
    &&& loop_named(blocks[i], loop_id)
    &&& forall|j: int| 0 <= j < i ==> !loop_named(#[trigger] blocks[j], loop_id)
}

/// The position of the first for-each block of the loop named `loop_id`.
pub fn find_loop(blocks: &Vec<BlockOutline>, loop_id: &str) -> (r: Option<usize>)
    ensures
        r matches Some(i) ==> first_loop(blocks@, loop_id@, i as int),
        r is None ==> forall|j: int| 0 <= j < blocks@.len()
            ==> !loop_named(#[trigger] blocks@[j], loop_id@),
{
    let mut i: usize = 0;
    while i < blocks.len()
        invariant
            i <= blocks@.len(),
            forall|j: int| 0 <= j < i
                ==> !loop_named(#[trigger] blocks@[j], loop_id@),
        decreases blocks.len() - i,
    {
        match &blocks[i].shape {
            BlockShape::ForEach { loop_id: l, .. } => {
                if str_eq(l.as_str(), loop_id) {
                    return Some(i);
                }
            },
            _ => {},
        }
        i = i + 1;
    }
    None
}

/// Where a `Continue` of the loop `loop_id` goes: back to the loop's for-each block.
pub fn continue_target(blocks: &Vec<BlockOutline>, loop_id: &str) -> (r: Result<String, OrchestrationError>)
    ensures
        (exists|i: int| first_loop(blocks@, loop_id@, i))
            ==> yields(r, blocks@[choose|i: int| first_loop(blocks@, loop_id@, i)].id@),
        (forall|j: int| 0 <= j < blocks@.len()
            ==> !loop_named(#[trigger] blocks@[j], loop_id@))
            ==> rejected(r, "Continue references unknown loop_id '"@ + loop_id@ + "'"@),
{
    match find_loop(blocks, loop_id) {
        Some(i) => {
            proof {
                let c = choose|c: int| first_loop(blocks@, loop_id@, c);
                if c < i as int {
                    assert(!loop_named(blocks@[c], loop_id@));
                } else if c > i as int {
                    assert(!loop_named(blocks@[i as int], loop_id@));
                }
            }
            Ok(blocks[i].id.clone())
        },
        None => {
            let mut out: Vec<char> = Vec::new();
            push_str_chars(&mut out, "Continue references unknown loop_id '");
            push_str_chars(&mut out, loop_id);
            push_str_chars(&mut out, "'");
            Err(OrchestrationError::ValidationError(string_from_chars(out.as_slice())))
        },
    }
}

/// Where a `Break` of the loop `loop_id` goes: to the exit block of the loop's for-each block.
pub fn break_target(blocks: &Vec<BlockOutline>, loop_id: &str) -> (r: Result<String, OrchestrationError>)
    ensures
        (exists|i: int| first_loop(blocks@, loop_id@, i))
            ==> yields(r, exit_of(blocks@[choose|i: int| first_loop(blocks@, loop_id@, i)])),
        (forall|j: int| 0 <= j < blocks@.len()
            ==> !loop_named(#[trigger] blocks@[j], loop_id@))
            ==> rejected(r, "Break references unknown loop_id '"@ + loop_id@ + "'"@),
{
    match find_loop(blocks, loop_id) {
        Some(i) => {
            proof {
                let c = choose|c: int| first_loop(blocks@, loop_id@, c);
                if c < i as int {
                    assert(!loop_named(blocks@[c], loop_id@));
                } else if c > i as int {
                    assert(!loop_named(blocks@[i as int], loop_id@));
                }
            }
            match &blocks[i].shape {
                BlockShape::ForEach { exit_block_id, .. } => Ok(exit_block_id.clone()),
                _ => Ok(String::new()),
            }
        },
        None => {
            let mut out: Vec<char> = Vec::new();
            push_str_chars(&mut out, "Break references unknown loop_id '");
            push_str_chars(&mut out, loop_id);
            push_str_chars(&mut out, "'");
            Err(OrchestrationError::ValidationError(string_from_chars(out.as_slice())))
        },
    }
}

/// How a conditional block's condition is tested.
#[derive(Debug, Clone)]
pub enum ConditionTest {
    /// The string variable `var_name` matches `expected`.
    Equals { var_name: String, expected: String },
    /// The boolean variable `var_name` is true.
    Flag { var_name: String },
    /// The condition never holds.
    Unsatisfiable,
}

/// The abstract content of a [`ConditionTest`].
pub enum ConditionView {
    Equals(Seq<char>, Seq<char>),
    Flag(Seq<char>),
    Unsatisfiable,
}

impl View for ConditionTest {
    type V = ConditionView;

    open spec fn view(&self) -> ConditionView {
        match self {
            ConditionTest::Equals { var_name, expected } => ConditionView::Equals(var_name@, expected@),
            ConditionTest::Flag { var_name } => ConditionView::Flag(var_name@),
            ConditionTest::Unsatisfiable => ConditionView::Unsatisfiable,
        }
    }
}

/// The test a condition text stands for: without `==` it names a boolean
/// variable; split at a single `==` it compares the trimmed variable name with
/// the trimmed, unquoted expected value; with more than one `==` it never holds.
pub open spec fn condition_view(c: Seq<char>) -> ConditionView {
    match first_occurrence(c, "=="@, 0) {
        None => ConditionView::Flag(c),
        Some(p) => if first_occurrence(c, "=="@, p + 2) is None {
            ConditionView::Equals(trim(trim(c.subrange(0, p))), trim_quotes(trim(c.subrange(p + 2, c.len() as int))))
        } else {
            ConditionView::Unsatisfiable
        },
    }
}

/// Reads a conditional block's condition.
pub fn parse_condition(condition: &str) -> (t: ConditionTest)
    ensures
        t@ == condition_view(condition@),
{
    let cs = chars_of(condition);
    let eq = chars_of("==");
    match find_chars(&cs, &eq, 0) {
        None => ConditionTest::Flag { var_name: String::from_str(condition) },
        Some(p) => {
            proof {
                lemma_first_occurrence(cs@, eq@, 0);
            }
            let n = cs.len();
            assert(p + 2 <= n) by {
                reveal_strlit("==");
            }
            match find_chars(&cs, &eq, p + 2) {
                Some(_) => ConditionTest::Unsatisfiable,
                None => {
                    let left = slice_chars(&cs, 0, p);
                    let right = slice_chars(&cs, p + 2, cs.len());
                    let name = trim_chars(&trim_chars(&left));
                    let expected = trim_quote_chars(&trim_chars(&right));
                    ConditionTest::Equals {
                        var_name: string_from_chars(name.as_slice()),
                        expected: string_from_chars(expected.as_slice()),
                    }
                },
            }
        },
    }
}

/// Whether a user's answer matches an expected choice, both lowercased: a
/// "final report" choice accepts answers naming 1, final or report; a
/// "refinement" choice 2 or refine; a "start over" choice 3, start or over;
/// any other choice only the same text.
pub open spec fn answer_matches(user_input: Seq<char>, expected: Seq<char>) -> bool {
    let u = lowercase(user_input);
    let e = lowercase(expected);
    if contains_text(e, "final report"@) {
        contains_text(u, "1"@) || contains_text(u, "final"@) || contains_text(u, "report"@)
    } else if contains_text(e, "refinement"@) {
        contains_text(u, "2"@) || contains_text(u, "refine"@)
    } else if contains_text(e, "start over"@) {
        contains_text(u, "3"@) || contains_text(u, "start"@) || contains_text(u, "over"@)
    } else {
        u == e
    }
}

/// A text that holds `needle` at `i` holds every piece of `needle` there too.
proof fn lemma_contains_piece(hay: Seq<char>, needle: Seq<char>, piece: Seq<char>, at: int)
    requires
        contains_text(hay, needle),
        0 <= at,
        at + piece.len() <= needle.len(),
        needle.subrange(at, at + piece.len()) == piece,
    ensures
        contains_text(hay, piece),
{
    let i = choose|i: int| occurs_at(hay, needle, i);
    assert(hay.subrange(i + at, i + at + piece.len()) =~= needle.subrange(at, at + piece.len()));
    assert(occurs_at(hay, piece, i + at));
}

/// How answers meet the choices a conditional offers, both read in lowercase:
/// for a "final report" choice, an answer holding 1, final or report matches;
/// for a "refinement" choice (that is no "final report" one), an answer
/// holding 2 or refine; for a "start over" choice (that is neither), an answer
/// holding 3, start or over; for any other choice, only an answer of the same
/// lowercase text. Every choice is matched by its own text.
pub proof fn lemma_answers(user_input: Seq<char>, expected: Seq<char>)
    ensures
        ({
            let u = lowercase(user_input);
            let e = lowercase(expected);
            &&& contains_text(e, "final report"@)
                && (contains_text(u, "1"@) || contains_text(u, "final"@) || contains_text(u, "report"@))
                ==> answer_matches(user_input, expected)
            &&& !contains_text(e, "final report"@) && contains_text(e, "refinement"@)
                && (contains_text(u, "2"@) || contains_text(u, "refine"@))
                ==> answer_matches(user_input, expected)
            &&& !contains_text(e, "final report"@) && !contains_text(e, "refinement"@)
                && contains_text(e, "start over"@)
                && (contains_text(u, "3"@) || contains_text(u, "start"@) || contains_text(u, "over"@))
                ==> answer_matches(user_input, expected)
            &&& !contains_text(e, "final report"@) && !contains_text(e, "refinement"@)
                && !contains_text(e, "start over"@)
                ==> (answer_matches(user_input, expected) <==> u == e)
        }),
        answer_matches(expected, expected),
{
    let e = lowercase(expected);
    reveal_strlit("final report");
    reveal_strlit("final");
    reveal_strlit("refinement");
    reveal_strlit("refine");
    reveal_strlit("start over");
    reveal_strlit("start");
    if contains_text(e, "final report"@) {
        assert("final report"@.subrange(0, 5) =~= "final"@);
        lemma_contains_piece(e, "final report"@, "final"@, 0);
    } else if contains_text(e, "refinement"@) {
        assert("refinement"@.subrange(0, 6) =~= "refine"@);
        lemma_contains_piece(e, "refinement"@, "refine"@, 0);
    } else if contains_text(e, "start over"@) {
        assert("start over"@.subrange(0, 5) =~= "start"@);
        lemma_contains_piece(e, "start over"@, "start"@, 0);
    }
}

/// Whether a user's answer matches an expected choice, as [`answer_matches`] states.
pub fn equality_matches(user_input: &str, expected: &str) -> (b: bool)
    ensures
        b == answer_matches(user_input@, expected@),
{
    let u = to_lowercase(user_input);
    let e = to_lowercase(expected);
    let uc = chars_of(u.as_str());
    let ec = chars_of(e.as_str());
    if contains_str(&ec, "final report") {
        contains_str(&uc, "1") || contains_str(&uc, "final") || contains_str(&uc, "report")
    } else if contains_str(&ec, "refinement") {
        contains_str(&uc, "2") || contains_str(&uc, "refine")
    } else if contains_str(&ec, "start over") {
        contains_str(&uc, "3") || contains_str(&uc, "start") || contains_str(&uc, "over")
    } else {
        str_eq(u.as_str(), e.as_str())
    }
}

/// The boolean a compute expression stands for when it is `true` or `false`.
pub fn boolean_literal(expression: &str) -> (r: Option<bool>)
    ensures
        r == (if expression@ == "true"@ { Some(true) } else if expression@ == "false"@ { Some(false) } else { None::<bool> }),
{
    if str_eq(expression, "true") {
        Some(true)
    } else if str_eq(expression, "false") {
        Some(false)
    } else {
        None
    }
}

/// The timeout of a parallel block: as given, or three hundred seconds.
pub fn parallel_timeout(timeout_secs: Option<u64>) -> (t: u64)
    ensures
        t == (match timeout_secs { Some(t) => t, None => 300u64 }),
{
    match timeout_secs {
        Some(t) => t,
        None => 300,
    }
}

} // verus!
