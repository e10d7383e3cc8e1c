use vstd::prelude::*;

verus! {

/// Whether a character has the Unicode `White_Space` property, as `char::is_whitespace` tells.
pub open spec fn is_white(c: char) -> bool {
    let u = c as u32;
    (0x9 <= u && u <= 0xd) || u == 0x20 || u == 0x85 || u == 0xa0 || u == 0x1680
        || (0x2000 <= u && u <= 0x200a) || u == 0x2028 || u == 0x2029 || u == 0x202f
        || u == 0x205f || u == 0x3000
}

/// Whether a character has the Unicode `White_Space` property.
pub fn is_whitespace_char(c: char) -> (b: bool)
    ensures
        b == is_white(c),
{
    let u = c as u32;
    (0x9 <= u && u <= 0xd) || u == 0x20 || u == 0x85 || u == 0xa0 || u == 0x1680
        || (0x2000 <= u && u <= 0x200a) || u == 0x2028 || u == 0x2029 || u == 0x202f
        || u == 0x205f || u == 0x3000
}

/// Whether trimming removes `c`: double quotes when `quotes` is set, whitespace otherwise.
pub open spec fn strips(c: char, quotes: bool) -> bool {
    if quotes { c == '"' } else { is_white(c) }
}

fn strips_exec(c: char, quotes: bool) -> (b: bool)
    ensures
        b == strips(c, quotes),
{
    if quotes { c == '"' } else { is_whitespace_char(c) }
}

/// The first position at or after `i` whose character trimming keeps, or the length.
pub open spec fn strip_start(s: Seq<char>, i: int, quotes: bool) -> int
    decreases s.len() - i,
{
    if i < 0 || i >= s.len() {
        s.len() as int
    } else if !strips(s[i], quotes) {
        i
    } else {
        strip_start(s, i + 1, quotes)
    }
}

/// The end of the text up to `j` once trailing characters that trimming removes are dropped.
pub open spec fn strip_end(s: Seq<char>, j: int, quotes: bool) -> int
    decreases j,
{
    if j <= 0 || j > s.len() {
        0
    } else if !strips(s[j - 1], quotes) {
        j
    } else {
        strip_end(s, j - 1, quotes)
    }
}

/// The text without the leading and trailing characters that trimming removes.
pub open spec fn strip_both(s: Seq<char>, quotes: bool) -> Seq<char> {
    let a = strip_start(s, 0, quotes);
    let b = strip_end(s, s.len() as int, quotes);
    if a < b { s.subrange(a, b) } else { Seq::empty() }
}

/// The text without leading and trailing whitespace, as `str::trim` gives it.
pub open spec fn trim(s: Seq<char>) -> Seq<char> {
    strip_both(s, false)
}

/// The text without leading and trailing double quotes, as `str::trim_matches('"')` gives it.
pub open spec fn trim_quotes(s: Seq<char>) -> Seq<char> {
    strip_both(s, true)
}

fn trim_bounds(cs: &Vec<char>, quotes: bool) -> (r: (usize, usize))
    ensures
        strip_start(cs@, 0, quotes) == r.0 as int,
        strip_end(cs@, cs@.len() as int, quotes) == r.1 as int,
        r.0 <= cs@.len(),
        r.1 <= cs@.len(),
{
    let mut a: usize = 0;
    while a < cs.len() && strips_exec(cs[a], quotes)
        invariant
            a <= cs@.len(),
            strip_start(cs@, 0, quotes) == strip_start(cs@, a as int, quotes),
        decreases cs.len() - a,
    {
        a = a + 1;
    }
    let mut b: usize = cs.len();
    while b > 0 && strips_exec(cs[b - 1], quotes)
        invariant
            b <= cs@.len(),
            strip_end(cs@, cs@.len() as int, quotes) == strip_end(cs@, b as int, quotes),
        decreases b,
    {
        b = b - 1;
    }
    (a, b)
}
/// The characters of `cs` from `a` up to `b`.
pub fn slice_chars(cs: &Vec<char>, a: usize, b: usize) -> (r: Vec<char>)
    requires
        a <= b <= cs@.len(),
    ensures
        r@ == cs@.subrange(a as int, b as int),
{
    let mut r: Vec<char> = Vec::new();
    let mut i: usize = a;
    while i < b
        invariant
            a <= i <= b,
            b <= cs@.len(),
            r@ == cs@.subrange(a as int, i as int),
        decreases b - i,
    {
        r.push(cs[i]);
        i = i + 1;
        assert(r@ =~= cs@.subrange(a as int, i as int));
    }
    r
}

/// The characters without leading and trailing whitespace.
pub fn trim_chars(cs: &Vec<char>) -> (r: Vec<char>)
    ensures
        r@ == trim(cs@),
{
    let (a, b) = trim_bounds(cs, false);
    if a < b {
        slice_chars(cs, a, b)
    } else {
        let r: Vec<char> = Vec::new();
        assert(r@ =~= trim(cs@));
        r
    }
}

/// The characters without leading and trailing double quotes.
pub fn trim_quote_chars(cs: &Vec<char>) -> (r: Vec<char>)
    ensures
        r@ == trim_quotes(cs@),
{
    let (a, b) = trim_bounds(cs, true);
    if a < b {
        slice_chars(cs, a, b)
    } else {
        let r: Vec<char> = Vec::new();
        assert(r@ =~= trim_quotes(cs@));
        r
    }
}

/// The pieces of a text between newline characters, as `str::split('\n')` gives them:
/// one more piece than there are newlines, possibly empty.
pub open spec fn split_lines(s: Seq<char>) -> Seq<Seq<char>>
    decreases s.len(),
{
    if s.len() == 0 {
        seq![Seq::empty()]
    } else {
        let prev = split_lines(s.drop_last());
        if s.last() == '\n' {
            prev.push(Seq::empty())
        } else {
            prev.update(prev.len() - 1, prev.last().push(s.last()))
        }
    }
}

/// There is always at least one piece.
pub proof fn lemma_split_lines_len(s: Seq<char>)
    ensures
        split_lines(s).len() >= 1,
    decreases s.len(),
{
    if s.len() > 0 {
        lemma_split_lines_len(s.drop_last());
    }
}

/// The lines of a text, as `str::lines` gives them: the pieces between newlines,
/// without a last empty piece, each piece that ends at a newline losing one
/// trailing carriage return.
pub open spec fn lines_of(s: Seq<char>) -> Seq<Seq<char>> {
    let segs = split_lines(s);
    let n = if segs.last().len() == 0 { segs.len() - 1 } else { segs.len() as int };
    Seq::new(n as nat, |k: int| if k < segs.len() - 1 { strip_cr(segs[k]) } else { segs[k] })
}

/// A piece without one trailing carriage return.
pub open spec fn strip_cr(s: Seq<char>) -> Seq<char> {
    if s.len() > 0 && s.last() == '\r' { s.drop_last() } else { s }
}

/// The pieces of a text between newlines.
pub fn split_lines_exec(cs: &Vec<char>) -> (r: Vec<Vec<char>>)
    ensures
        r@.map_values(|v: Vec<char>| v@) == split_lines(cs@),
{
    let mut r: Vec<Vec<char>> = Vec::new();
    let mut cur: Vec<char> = Vec::new();
    let mut i: usize = 0;
    proof { assert(cs@.take(0) =~= Seq::<char>::empty()); }
    while i < cs.len()
        invariant
            i <= cs@.len(),
            r@.map_values(|v: Vec<char>| v@).push(cur@) == split_lines(cs@.take(i as int)),
        decreases cs.len() - i,
    {
        let c = cs[i];
        let ghost before = r@.map_values(|v: Vec<char>| v@);
        let ghost cur0 = cur@;
        proof {
            assert(cs@.take(i + 1).drop_last() =~= cs@.take(i as int));
            assert(cs@.take(i + 1).last() == c);
        }
        if c == '\n' {
            let done = cur;
            cur = Vec::new();
            r.push(done);
            assert(r@.map_values(|v: Vec<char>| v@) =~= before.push(cur0));
            assert(r@.map_values(|v: Vec<char>| v@).push(cur@) =~= before.push(cur0).push(Seq::empty()));
        } else {
            cur.push(c);
            assert(before.push(cur@) =~= before.push(cur0).update(before.len() as int, cur0.push(c)));
        }
        i = i + 1;
    }
    assert(cs@.take(cs@.len() as int) =~= cs@);
    let ghost before = r@.map_values(|v: Vec<char>| v@);
    let ghost last = cur@;
    r.push(cur);
    assert(r@.map_values(|v: Vec<char>| v@) =~= before.push(last));
    r
}

/// The lines of a text, as [`lines_of`] states.
pub fn lines_exec(cs: &Vec<char>) -> (r: Vec<Vec<char>>)
    ensures
        r@.map_values(|v: Vec<char>| v@) == lines_of(cs@),
{
    let segs = split_lines_exec(cs);
    let ghost sv = segs@.map_values(|v: Vec<char>| v@);
    proof { lemma_split_lines_len(cs@); }
    let total = segs.len();
    let n = if segs[total - 1].len() == 0 { total - 1 } else { total };
    let mut r: Vec<Vec<char>> = Vec::new();
    let mut k: usize = 0;
    while k < n
        invariant
            k <= n,
            n <= total,
            total == segs@.len(),
            total >= 1,
            sv == segs@.map_values(|v: Vec<char>| v@),
            sv == split_lines(cs@),
            n == (if sv.last().len() == 0 { sv.len() - 1 } else { sv.len() as int }),
            r@.map_values(|v: Vec<char>| v@) == lines_of(cs@).take(k as int),
        decreases n - k,
    {
        let seg = &segs[k];
        let piece = if k + 1 < total && seg.len() > 0 && seg[seg.len() - 1] == '\r' {
            slice_chars(seg, 0, seg.len() - 1)
        } else {
            slice_chars(seg, 0, seg.len())
        };
        proof {
            assert(sv[k as int] == seg@);
            assert(seg@.subrange(0, seg@.len() as int) =~= seg@);
            if seg@.len() > 0 {
                assert(seg@.subrange(0, seg@.len() - 1) =~= seg@.drop_last());
            }
        }
        let ghost before = r@.map_values(|v: Vec<char>| v@);
        assert(lines_of(cs@).len() == n);
        assert(piece@ == lines_of(cs@)[k as int]);
        r.push(piece);
        assert(r@.map_values(|v: Vec<char>| v@) =~= before.push(lines_of(cs@)[k as int]));
        k = k + 1;
        assert(r@.map_values(|v: Vec<char>| v@) =~= lines_of(cs@).take(k as int));
    }
    assert(lines_of(cs@).take(n as int) =~= lines_of(cs@));
    r
}

} // verus!
