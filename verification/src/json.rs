use vstd::prelude::*;
use crate::text::{chars_of, decimal_int, str_eq, string_from_chars};
use crate::textops::slice_chars;

verus! {

#[verifier::external_type_specification]
#[verifier::external_body]
pub struct ExJsonError(serde_json::Error);

/// The `i64` that `serde_json` reads from the JSON text `text`
/// (`Value::as_i64` of the parsed document), if it is one.
pub uninterp spec fn json_as_i64(text: Seq<char>) -> Option<i64>;

/// The `u64` that `serde_json` reads from the JSON text `text`
/// (`Value::as_u64` of the parsed document), if it is one.
pub uninterp spec fn json_as_u64(text: Seq<char>) -> Option<u64>;

/// JSON's whitespace: space, tab, line feed and carriage return.
pub open spec fn is_json_space(c: char) -> bool {
    c == ' ' || c == '\t' || c == '\n' || c == '\r'
}

/// The text without the JSON whitespace it starts with.
pub open spec fn trim_json_start(s: Seq<char>) -> Seq<char>
    decreases s.len(),
{
    if s.len() > 0 && is_json_space(s[0]) { trim_json_start(s.drop_first()) } else { s }
}

/// The text without the JSON whitespace it ends with.
pub open spec fn trim_json_end(s: Seq<char>) -> Seq<char>
    decreases s.len(),
{
    if s.len() > 0 && is_json_space(s.last()) { trim_json_end(s.drop_last()) } else { s }
}

/// The boolean that `serde_json` reads from the JSON text `text`
/// (`Value::as_bool` of the parsed document): a document is a boolean
/// exactly when, between JSON whitespace, it is `true` or `false`.
pub open spec fn json_as_bool(text: Seq<char>) -> Option<bool> {
    let core = trim_json_end(trim_json_start(text));
    if core == "true"@ {
        Some(true)
    } else if core == "false"@ {
        Some(false)
    } else {
        None
    }
}

/// The string that `serde_json` reads from the JSON text `text`
/// (`Value::as_str` of the parsed document), if it is one.
pub uninterp spec fn json_as_str(text: Seq<char>) -> Option<Seq<char>>;

/// Parses `text` with `serde_json::from_str` and takes the document with
/// `Value::as_i64`; `None` when the text is no JSON or no such integer. The
/// contract names the result and states one fact of it: the decimal text of an
/// `i64` is read back as that integer. Which other texts give which integers is
/// `serde_json`'s grammar, not restated here.
#[verifier::external_body]
pub(crate) fn read_json_i64(text: &str) -> (r: Option<i64>)
    ensures
        r == json_as_i64(text@),
        forall|n: i64| #[trigger] decimal_int(n as int) == text@ ==> r == Some(n),
{
    match serde_json::from_str::<serde_json::Value>(text) {
        Ok(doc) => doc.as_i64(),
        Err(_) => None,
    }
}

/// Parses `text` with `serde_json::from_str` and takes the document with
/// `Value::as_u64`; `None` when the text is no JSON or no such integer. The
/// contract names the result and states one fact of it: the decimal text of a
/// `u64` is read back as that integer.
#[verifier::external_body]
pub(crate) fn read_json_u64(text: &str) -> (r: Option<u64>)
    ensures
        r == json_as_u64(text@),
        forall|n: u64| #[trigger] decimal_int(n as int) == text@ ==> r == Some(n),
{
    match serde_json::from_str::<serde_json::Value>(text) {
        Ok(doc) => doc.as_u64(),
        Err(_) => None,
    }
}

fn json_space(c: char) -> (b: bool)
    ensures
        b == is_json_space(c),
{
    c == ' ' || c == '\t' || c == '\n' || c == '\r'
}

/// The boolean a JSON text holds, as [`json_as_bool`] states: its JSON
/// whitespace is trimmed on both sides and what is left is compared with
/// `true` and `false`.
pub fn read_json_bool(text: &str) -> (r: Option<bool>)
    ensures
        r == json_as_bool(text@),
{
    let cs = chars_of(text);
    let n = cs.len();
    let mut i: usize = 0;
    assert(cs@.subrange(0, n as int) =~= cs@);
    while i < n && json_space(cs[i])
        invariant
            i <= n,
            n == cs@.len(),
            trim_json_start(cs@) == trim_json_start(cs@.subrange(i as int, n as int)),
        decreases n - i,
    {
        assert(cs@.subrange(i as int, n as int).drop_first() =~= cs@.subrange(i + 1, n as int));
        i = i + 1;
    }
    assert(trim_json_start(cs@) == cs@.subrange(i as int, n as int));
    let mut j: usize = n;
    while j > i && json_space(cs[j - 1])
        invariant
            i <= j <= n,
            n == cs@.len(),
            trim_json_end(cs@.subrange(i as int, n as int)) == trim_json_end(cs@.subrange(i as int, j as int)),
        decreases j,
    {
        assert(cs@.subrange(i as int, j as int).drop_last() =~= cs@.subrange(i as int, j - 1));
        j = j - 1;
    }
    let core = string_from_chars(slice_chars(&cs, i, j).as_slice());
    assert(core@ == trim_json_end(trim_json_start(text@)));
    if str_eq(core.as_str(), "true") {
        Some(true)
    } else if str_eq(core.as_str(), "false") {
        Some(false)
    } else {
        None
    }
}

/// Parses `text` with `serde_json::from_str` and takes the document with
/// `Value::as_str`; `None` when the text is no JSON or no string. The
/// contract only names the result.
#[verifier::external_body]
pub(crate) fn read_json_str(text: &str) -> (r: Option<String>)
    ensures
        json_as_str(text@) == (match r {
            Some(s) => Some(s@),
            None => None::<Seq<char>>,
        }),
{
    match serde_json::from_str::<serde_json::Value>(text) {
        Ok(doc) => doc.as_str().map(String::from),
        Err(_) => None,
    }
}

/// Whether `serde_json` parses the text `text` as a JSON document.
pub uninterp spec fn parses_as_json(text: Seq<char>) -> bool;

/// Whether `serde_json::from_str` reads `text` as a JSON document. The
/// contract names the result: which texts are JSON is `serde_json`'s grammar,
/// not restated here.
#[verifier::external_body]
pub(crate) fn is_json_text(text: &str) -> (b: bool)
    ensures
        b == parses_as_json(text@),
{
    serde_json::from_str::<serde_json::Value>(text).is_ok()
}

/// The text of the member `key` of the JSON document `doc` (`Value::get` of
/// the parsed document, written back with `Value::to_string`), when the
/// document is an object that has it.
pub uninterp spec fn json_member_of(doc: Seq<char>, key: Seq<char>) -> Option<Seq<char>>;

/// The text of what the JSON pointer `path` reaches in the document `doc`
/// (`Value::pointer` of the parsed document, written back with
/// `Value::to_string`), if it reaches anything.
pub uninterp spec fn json_pointer_of(doc: Seq<char>, path: Seq<char>) -> Option<Seq<char>>;

/// Parses `doc` with `serde_json::from_str` and looks up the member `key` with
/// `Value::get`; `None` when the text is no JSON or has no such member. The
/// contract names the result.
#[verifier::external_body]
pub(crate) fn json_member(doc: &str, key: &str) -> (r: Option<String>)
    ensures
        json_member_of(doc@, key@) == (match r {
            Some(s) => Some(s@),
            None => None::<Seq<char>>,
        }),
{
    match serde_json::from_str::<serde_json::Value>(doc) {
        Ok(v) => match v.get(key) {
            Some(m) => Some(m.to_string()),
            None => None,
        },
        Err(_) => None,
    }
}

/// Parses `doc` with `serde_json::from_str` and follows the JSON pointer `path`
/// with `Value::pointer`; `None` when the text is no JSON or the pointer reaches
/// nothing. The contract names the result.
#[verifier::external_body]
pub(crate) fn json_pointer(doc: &str, path: &str) -> (r: Option<String>)
    ensures
        json_pointer_of(doc@, path@) == (match r {
            Some(s) => Some(s@),
            None => None::<Seq<char>>,
        }),
{
    match serde_json::from_str::<serde_json::Value>(doc) {
        Ok(v) => match v.pointer(path) {
            Some(m) => Some(m.to_string()),
            None => None,
        },
        Err(_) => None,
    }
}

} // verus!
