//! Paths into a contract's state, as the transpiled AST names them.

use vstd::prelude::*;
use crate::text::{decimal_nat, push_decimal_u64, push_str_chars, string_from_chars};

verus! {

/// One step of a path. `DynamicOffset` stands for an offset computed while
/// the contract runs; a path's text does not read how it is computed.
#[derive(Debug, Clone)]
pub enum PathSegment {
    State,
    Input,
    Key(String),
    Index(u64),
    DynamicOffset,
}

/// A path: its segments in order.
#[derive(Debug, Clone)]
pub struct Path(pub Vec<PathSegment>);

/// How a segment is written in a path's text.
pub open spec fn segment_text(s: PathSegment) -> Seq<char> {
    match s {
        PathSegment::State => "state"@,
        PathSegment::Input => "input"@,
        PathSegment::Key(k) => k@,
        PathSegment::Index(i) => "["@ + decimal_nat(i as nat) + "]"@,
        PathSegment::DynamicOffset => "[dynamic]"@,
    }
}

/// The texts of the first `n` segments joined by dots.
pub open spec fn path_text(segments: Seq<PathSegment>, n: int) -> Seq<char>
    decreases n,
{
    if n <= 0 {
        Seq::empty()
    } else if n == 1 {
        segment_text(segments[0])
    } else {
        path_text(segments, n - 1) + "."@ + segment_text(segments[n - 1])
    }
}

/// The name a segment keeps in a list of names: none for the state root,
/// `input`, the key, the index in decimal, or `dynamic`.
pub open spec fn segment_name(s: PathSegment) -> Option<Seq<char>> {
    match s {
        PathSegment::State => None,
        PathSegment::Input => Some("input"@),
        PathSegment::Key(k) => Some(k@),
        PathSegment::Index(i) => Some(decimal_nat(i as nat)),
        PathSegment::DynamicOffset => Some("dynamic"@),
    }
}

/// The names the first `n` segments keep, in order.
pub open spec fn segment_names(segments: Seq<PathSegment>, n: int) -> Seq<Seq<char>>
    decreases n,
{
    if n <= 0 {
        Seq::empty()
    } else {
        match segment_name(segments[n - 1]) {
            Some(name) => segment_names(segments, n - 1).push(name),
            None => segment_names(segments, n - 1),
        }
    }
}

/// Names turned into a path of keys give the same names back.
pub proof fn lemma_names_round_trip(names: Seq<Seq<char>>, segments: Seq<PathSegment>, n: int)
    requires
        segments.len() == names.len(),
        0 <= n <= names.len(),
        forall|i: int| 0 <= i < names.len() ==> (#[trigger] segments[i] matches PathSegment::Key(k) && k@ == names[i]),
    ensures
        segment_names(segments, n) == names.take(n),
    decreases n,
{
    if n > 0 {
        lemma_names_round_trip(names, segments, n - 1);
        assert(segments[n - 1] matches PathSegment::Key(k) && k@ == names[n - 1]);
        assert(names.take(n) =~= names.take(n - 1).push(names[n - 1]));
    } else {
        assert(names.take(0) =~= Seq::<Seq<char>>::empty());
    }
}

/// The texts of a list of strings.
pub open spec fn names_view(v: Seq<String>) -> Seq<Seq<char>> {
    v.map_values(|s: String| s@)
}

fn push_segment(s: &PathSegment, out: &mut Vec<char>)
    ensures
        final(out)@ == old(out)@ + segment_text(*s),
{
    match s {
        PathSegment::State => push_str_chars(out, "state"),
        PathSegment::Input => push_str_chars(out, "input"),
        PathSegment::Key(k) => push_str_chars(out, k.as_str()),
        PathSegment::Index(i) => {
            let ghost before = out@;
            push_str_chars(out, "[");
            push_decimal_u64(*i, out);
            push_str_chars(out, "]");
            assert(out@ =~= before + segment_text(*s));
        },
        PathSegment::DynamicOffset => push_str_chars(out, "[dynamic]"),
    }
}

impl Path {
    /// A path of keys, one per name.
    pub fn from_names(names: Vec<String>) -> (p: Path)
        ensures
            p.0@.len() == names@.len(),
            forall|i: int| 0 <= i < names@.len() ==> (#[trigger] p.0@[i] matches PathSegment::Key(k) && k@ == names@[i]@),
    {
        let mut segments: Vec<PathSegment> = Vec::new();
        let mut i: usize = 0;
        while i < names.len()
            invariant
                i <= names@.len(),
                segments@.len() == i,
                forall|j: int| 0 <= j < i ==> (#[trigger] segments@[j] matches PathSegment::Key(k) && k@ == names@[j]@),
            decreases names.len() - i,
        {
            segments.push(PathSegment::Key(names[i].clone()));
            i = i + 1;
        }
        Path(segments)
    }

    /// The path's text: its segments joined by dots, an index written `[i]`.
    pub fn to_text(&self) -> (r: String)
        ensures
            r@ == path_text(self.0@, self.0@.len() as int),
    {
        let mut out: Vec<char> = Vec::new();
        let mut i: usize = 0;
        while i < self.0.len()
            invariant
                i <= self.0@.len(),
                out@ == path_text(self.0@, i as int),
            decreases self.0.len() - i,
        {
            if i > 0 {
                push_str_chars(&mut out, ".");
            }
            push_segment(&self.0[i], &mut out);
            i = i + 1;
        }
        string_from_chars(out.as_slice())
    }
}

/// A path of keys, one per name.
pub fn convert_string_path_to_path(string_path: Vec<String>) -> (p: Path)
    ensures
        p.0@.len() == string_path@.len(),
        forall|i: int| 0 <= i < string_path@.len()
            ==> (#[trigger] p.0@[i] matches PathSegment::Key(k) && k@ == string_path@[i]@),
{
    Path::from_names(string_path)
}

/// The names of a path's segments, in order, leaving out the state root.
pub fn convert_path_to_string_path(path: &Path) -> (r: Vec<String>)
    ensures
        names_view(r@) == segment_names(path.0@, path.0@.len() as int),
{
    let mut r: Vec<String> = Vec::new();
    let mut i: usize = 0;
    while i < path.0.len()
        invariant
            i <= path.0@.len(),
            names_view(r@) == segment_names(path.0@, i as int),
        decreases path.0.len() - i,
    {
        let ghost before = names_view(r@);
        match &path.0[i] {
            PathSegment::State => {},
            PathSegment::Input => r.push(String::from_str("input")),
            PathSegment::Key(k) => r.push(k.clone()),
            PathSegment::Index(n) => {
                let mut digits: Vec<char> = Vec::new();
                push_decimal_u64(*n, &mut digits);
                r.push(string_from_chars(digits.as_slice()));
            },
            PathSegment::DynamicOffset => r.push(String::from_str("dynamic")),
        }
        i = i + 1;
        assert(names_view(r@) =~= segment_names(path.0@, i as int));
    }
    r
}

} // verus!
