use vstd::prelude::*;
use crate::json::{json_as_bool, json_as_i64, json_as_str, json_as_u64, read_json_bool, read_json_i64, read_json_str, read_json_u64};
use crate::text::{decimal_int, push_decimal_i64, push_str_chars, string_from_chars};

verus! {

/// What the runtime reads of a JSON document carried as a value.
///
/// `text` is the document's compact JSON text, which is also how the runtime
/// displays it; `identity` is that text with every negative zero written as a
/// positive zero, so that two documents are equal exactly when their
/// identities are; `truthy` is the document's truth value (false for `null`,
/// `false`, zero and empty strings, arrays and objects).
#[derive(Debug, Clone, PartialEq, Eq)]
pub struct JsonDatum {
    pub text: String,
    pub identity: String,
    pub truthy: bool,
}

impl crate::keyed::Duplicate for JsonDatum {
    fn duplicate(&self) -> (r: Self) {
        JsonDatum { text: self.text.clone(), identity: self.identity.clone(), truthy: self.truthy }
    }
}

/// A value on the runtime's stack.
#[derive(Debug, Clone, PartialEq, Eq)]
pub enum Value {
    Integer(i64),
    Boolean(bool),
    String(String),
    Null,
    Json(JsonDatum),
}

/// The abstract content of a [`Value`].
pub enum ValueView {
    Integer(i64),
    Boolean(bool),
    Text(Seq<char>),
    Null,
    Json { text: Seq<char>, identity: Seq<char>, truthy: bool },
}

impl View for Value {
    type V = ValueView;

    open spec fn view(&self) -> ValueView {
        match self {
            Value::Integer(i) => ValueView::Integer(*i),
            Value::Boolean(b) => ValueView::Boolean(*b),
            Value::String(s) => ValueView::Text(s@),
            Value::Null => ValueView::Null,
            Value::Json(d) => ValueView::Json { text: d.text@, identity: d.identity@, truthy: d.truthy },
        }
    }
}

/// The views of a sequence of values.
pub open spec fn values_view(s: Seq<Value>) -> Seq<ValueView> {
    s.map_values(|v: Value| v@)
}

/// How a value is displayed: integers in decimal, booleans as `true`/`false`,
/// strings as themselves, null as `null`, JSON documents as their text.
pub open spec fn display(v: ValueView) -> Seq<char> {
    match v {
        ValueView::Integer(i) => decimal_int(i as int),
        ValueView::Boolean(b) => if b { "true"@ } else { "false"@ },
        ValueView::Text(s) => s,
        ValueView::Null => "null"@,
        ValueView::Json { text, .. } => text,
    }
}

/// The truth value of a value: booleans as themselves, integers when non-zero,
/// strings when non-empty, null as false, JSON documents by their own truth value.
pub open spec fn truthy(v: ValueView) -> bool {
    match v {
        ValueView::Integer(i) => i != 0,
        ValueView::Boolean(b) => b,
        ValueView::Text(s) => s.len() > 0,
        ValueView::Null => false,
        ValueView::Json { truthy, .. } => truthy,
    }
}

/// Equality of values: same variant and equal content; JSON documents compare by identity.
pub open spec fn value_eq(a: ValueView, b: ValueView) -> bool {
    match (a, b) {
        (ValueView::Integer(x), ValueView::Integer(y)) => x == y,
        (ValueView::Boolean(x), ValueView::Boolean(y)) => x == y,
        (ValueView::Text(x), ValueView::Text(y)) => x == y,
        (ValueView::Null, ValueView::Null) => true,
        (ValueView::Json { identity: x, .. }, ValueView::Json { identity: y, .. }) => x == y,
        _ => false,
    }
}

/// Value equality is reflexive and symmetric.
pub proof fn lemma_value_eq_reflexive_symmetric(a: ValueView, b: ValueView)
    ensures
        value_eq(a, a),
        value_eq(a, b) == value_eq(b, a),
{
}

impl Value {
    /// A copy of this value with the same content.
    pub fn duplicate(&self) -> (r: Value)
        ensures
            r@ == self@,
    {
        match self {
            Value::Integer(i) => Value::Integer(*i),
            Value::Boolean(b) => Value::Boolean(*b),
            Value::String(s) => Value::String(s.clone()),
            Value::Null => Value::Null,
            Value::Json(d) => Value::Json(JsonDatum {
                text: d.text.clone(),
                identity: d.identity.clone(),
                truthy: d.truthy,
            }),
        }
    }

    /// The truth value of this value.
    pub fn is_truthy(&self) -> (b: bool)
        ensures
            b == truthy(self@),
    {
        match self {
            Value::Integer(i) => *i != 0,
            Value::Boolean(b) => *b,
            Value::String(s) => !s.as_str().is_empty(),
            Value::Null => false,
            Value::Json(d) => d.truthy,
        }
    }

    /// Whether this value equals `other`.
    pub fn equals(&self, other: &Value) -> (b: bool)
        ensures
            b == value_eq(self@, other@),
    {
        match (self, other) {
            (Value::Integer(x), Value::Integer(y)) => *x == *y,
            (Value::Boolean(x), Value::Boolean(y)) => *x == *y,
            (Value::String(x), Value::String(y)) => *x == *y,
            (Value::Null, Value::Null) => true,
            (Value::Json(x), Value::Json(y)) => x.identity == y.identity,
            _ => false,
        }
    }

    /// Appends how this value is displayed to `out`.
    pub fn push_display(&self, out: &mut Vec<char>)
        ensures
            final(out)@ == old(out)@ + display(self@),
    {
        match self {
            Value::Integer(i) => push_decimal_i64(*i, out),
            Value::Boolean(b) => {
                if *b {
                    push_str_chars(out, "true");
                } else {
                    push_str_chars(out, "false");
                }
            },
            Value::String(s) => push_str_chars(out, s.as_str()),
            Value::Null => push_str_chars(out, "null"),
            Value::Json(d) => push_str_chars(out, d.text.as_str()),
        }
    }

    /// How this value is displayed.
    pub fn display_string(&self) -> (s: String)
        ensures
            s@ == display(self@),
    {
        let mut out: Vec<char> = Vec::new();
        self.push_display(&mut out);
        assert(out@ =~= display(self@));
        string_from_chars(out.as_slice())
    }

    /// The string this value holds: a string, or a JSON document that `serde_json` reads as one.
    pub fn as_str(&self) -> (r: Option<String>)
        ensures
            match self@ {
                ValueView::Text(s) => r matches Some(t) && t@ == s,
                ValueView::Json { text, .. } => json_as_str(text) == (match r {
                    Some(t) => Some(t@),
                    None => None::<Seq<char>>,
                }),
                _ => r is None,
            },
    {
        match self {
            Value::String(s) => Some(s.clone()),
            Value::Json(d) => read_json_str(d.text.as_str()),
            _ => None,
        }
    }

    /// The `i64` this value holds: an integer, or a JSON document that `serde_json` reads as one.
    pub fn as_i64(&self) -> (r: Option<i64>)
        ensures
            r == (match self@ {
                ValueView::Integer(i) => Some(i),
                ValueView::Json { text, .. } => json_as_i64(text),
                _ => None::<i64>,
            }),
    {
        match self {
            Value::Integer(i) => Some(*i),
            Value::Json(d) => read_json_i64(d.text.as_str()),
            _ => None,
        }
    }

    /// The `u64` this value holds: a non-negative integer, or a JSON document that `serde_json` reads as one.
    pub fn as_u64(&self) -> (r: Option<u64>)
        ensures
            r == (match self@ {
                ValueView::Integer(i) => if i >= 0 { Some(i as u64) } else { None::<u64> },
                ValueView::Json { text, .. } => json_as_u64(text),
                _ => None::<u64>,
            }),
    {
        match self {
            Value::Integer(i) => if *i >= 0 { Some(*i as u64) } else { None },
            Value::Json(d) => read_json_u64(d.text.as_str()),
            _ => None,
        }
    }

    /// The boolean this value holds: a boolean, or a JSON document that `serde_json` reads as one.
    pub fn as_bool(&self) -> (r: Option<bool>)
        ensures
            r == (match self@ {
                ValueView::Boolean(b) => Some(b),
                ValueView::Json { text, .. } => json_as_bool(text),
                _ => None::<bool>,
            }),
    {
        match self {
            Value::Boolean(b) => Some(*b),
            Value::Json(d) => read_json_bool(d.text.as_str()),
            _ => None,
        }
    }

    /// Whether this value is null: `Null`, or a JSON document whose text is `null`.
    pub fn is_null(&self) -> (b: bool)
        ensures
            b == (self@ is Null || (self@ matches ValueView::Json { text, .. } && text == "null"@)),
    {
        match self {
            Value::Null => true,
            Value::Json(d) => crate::text::str_eq(d.text.as_str(), "null"),
            _ => false,
        }
    }
}

} // verus!
