use vstd::prelude::*;
use crate::text::{lowercase, str_eq, to_lowercase};

verus! {

/// The type a response field is expected to have.
#[derive(Debug, Clone, Copy, PartialEq, Eq, Structural)]
pub enum ValueType {
    String,
    Number,
    Boolean,
    Array,
    Object,
    Any,
}

/// The boolean a text stands for, compared without regard to case: `true`,
/// `yes` and `1` for true, `false`, `no` and `0` for false.
pub open spec fn boolean_reading(s: Seq<char>) -> Option<bool> {
    let l = lowercase(s);
    if l == "true"@ || l == "yes"@ || l == "1"@ {
        Some(true)
    } else if l == "false"@ || l == "no"@ || l == "0"@ {
        Some(false)
    } else {
        None
    }
}

/// The boolean a text stands for, as [`boolean_reading`] states.
pub fn boolean_from_text(s: &str) -> (r: Option<bool>)
    ensures
        r == boolean_reading(s@),
{
    let l = to_lowercase(s);
    let t = l.as_str();
    if str_eq(t, "true") || str_eq(t, "yes") || str_eq(t, "1") {
        Some(true)
    } else if str_eq(t, "false") || str_eq(t, "no") || str_eq(t, "0") {
        Some(false)
    } else {
        None
    }
}

/// The JSON text of the value a missing field gets when no default was given:
/// by its expected type an empty string, zero, false, an empty array or an
/// empty object; `null` for any type or no expected type.
pub open spec fn type_default(expected: Option<ValueType>) -> Seq<char> {
    match expected {
        Some(ValueType::String) => "\"\""@,
        Some(ValueType::Number) => "0"@,
        Some(ValueType::Boolean) => "false"@,
        Some(ValueType::Array) => "[]"@,
        Some(ValueType::Object) => "{}"@,
        _ => "null"@,
    }
}

/// The JSON text of a missing field's default, as [`type_default`] states.
pub fn type_default_text(expected: Option<ValueType>) -> (r: &'static str)
    ensures
        r@ == type_default(expected),
{
    match expected {
        Some(ValueType::String) => "\"\"",
        Some(ValueType::Number) => "0",
        Some(ValueType::Boolean) => "false",
        Some(ValueType::Array) => "[]",
        Some(ValueType::Object) => "{}",
        _ => "null",
    }
}

} // verus!
