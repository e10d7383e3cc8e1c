use vstd::prelude::*;
use crate::json::{is_json_text, parses_as_json};
use crate::text::{byte_count, chars_of, find_chars, first_occurrence, lemma_first_occurrence, string_from_chars, text_len};
use crate::textops::{
    strip_end, strip_start, strips,
    is_white, is_whitespace_char, lines_exec, lines_of, slice_chars, split_lines, split_lines_exec, trim,
    trim_chars,
};

verus! {

/// An estimate of the tokens in a text: a quarter of its length in bytes, rounded down.
pub fn estimate_token_count(text: &str) -> (n: usize)
    ensures
        n == byte_count(text@) / 4,
{
    text_len(text) / 4
}

/// The text between the first occurrence of `start` and the first occurrence of
/// `end` after it, if both occur.
pub open spec fn between(text: Seq<char>, start: Seq<char>, end: Seq<char>) -> Option<Seq<char>> {
    match first_occurrence(text, start, 0) {
        None => None,
        Some(p) => {
            let q = p + start.len();
            match first_occurrence(text, end, q) {
                None => None,
                Some(r) => Some(text.subrange(q, r)),
            }
        },
    }
}

/// The text between two delimiters, as [`between`] states.
pub fn extract_between_delimiters(text: &str, start_delimiter: &str, end_delimiter: &str) -> (r: Option<String>)
    ensures
        match between(text@, start_delimiter@, end_delimiter@) {
            Some(t) => r matches Some(s) && s@ == t,
            None => r is None,
        },
{
    let cs = chars_of(text);
    let sd = chars_of(start_delimiter);
    let ed = chars_of(end_delimiter);
    match find_chars(&cs, &sd, 0) {
        None => None,
        Some(p) => {
            proof { lemma_first_occurrence(cs@, sd@, 0); }
            assert(p + sd@.len() <= cs@.len());
            assert(cs@.len() == cs.len() && sd@.len() == sd.len());
            let q = p + sd.len();
            match find_chars(&cs, &ed, q) {
                None => None,
                Some(e) => {
                    proof { lemma_first_occurrence(cs@, ed@, q as int); }
                    let inner = slice_chars(&cs, q, e);
                    Some(string_from_chars(inner.as_slice()))
                },
            }
        },
    }
}

/// The span found by scanning `text` from position `i` for a balanced pair of
/// `open` and `close`, with the nesting depth `balance` and the start `start` so
/// far: an `open` at depth zero starts a span, each `open` deepens and each
/// `close` lessens the depth, and a `close` that brings it back to zero after a
/// start ends the span.
pub open spec fn balanced_span(text: Seq<char>, open: char, close: char, i: int, balance: int, start: Option<int>) -> Option<(int, int)>
    decreases text.len() - i,
{
    if i < 0 || i >= text.len() {
        None
    } else if text[i] == open {
        let s = if balance == 0 { Some(i) } else { start };
        balanced_span(text, open, close, i + 1, balance + 1, s)
    } else if text[i] == close {
        if balance - 1 == 0 && start is Some {
            Some((start->0, i))
        } else {
            balanced_span(text, open, close, i + 1, balance - 1, start)
        }
    } else {
        balanced_span(text, open, close, i + 1, balance, start)
    }
}

proof fn lemma_span_bounds(text: Seq<char>, open: char, close: char, i: int, balance: int, start: Option<int>)
    requires
        0 <= i,
        start matches Some(s) ==> 0 <= s < i,
    ensures
        balanced_span(text, open, close, i, balance, start) matches Some((a, b)) ==> 0 <= a <= b < text.len(),
    decreases text.len() - i,
{
    if i < text.len() {
        if text[i] == open {
            let s = if balance == 0 { Some(i) } else { start };
            lemma_span_bounds(text, open, close, i + 1, balance + 1, s);
        } else if text[i] == close {
            if !(balance - 1 == 0 && start is Some) {
                lemma_span_bounds(text, open, close, i + 1, balance - 1, start);
            }
        } else {
            lemma_span_bounds(text, open, close, i + 1, balance, start);
        }
    }
}

proof fn lemma_span_ends_from(text: Seq<char>, open: char, close: char, i: int, balance: int, start: Option<int>)
    requires
        0 <= i,
        open != close,
        start matches Some(s) ==> 0 <= s < i && text[s] == open,
    ensures
        balanced_span(text, open, close, i, balance, start) matches Some((a, b))
            ==> 0 <= a < b < text.len() && text[a] == open && text[b] == close,
    decreases text.len() - i,
{
    if 0 <= i < text.len() {
        if text[i] == open {
            let s = if balance == 0 { Some(i) } else { start };
            lemma_span_ends_from(text, open, close, i + 1, balance + 1, s);
        } else if text[i] == close {
            if !(balance - 1 == 0 && start is Some) {
                lemma_span_ends_from(text, open, close, i + 1, balance - 1, start);
            }
        } else {
            lemma_span_ends_from(text, open, close, i + 1, balance, start);
        }
    }
}

/// A balanced span found in a text runs from an opening character to a later
/// closing one: with distinct delimiters, it starts with `open` and ends with
/// `close`.
pub proof fn lemma_span_ends(text: Seq<char>, open: char, close: char)
    requires
        open != close,
    ensures
        balanced_span(text, open, close, 0, 0, None) matches Some((a, b))
            ==> 0 <= a < b < text.len() && text[a] == open && text[b] == close,
{
    lemma_span_ends_from(text, open, close, 0, 0, None);
}

/// The first balanced span from `open` to `close` in a text, both included.
pub fn find_json_delimiters(text: &str, start_char: char, end_char: char) -> (r: Option<String>)
    ensures
        match balanced_span(text@, start_char, end_char, 0, 0, None) {
            Some((a, b)) => r matches Some(s) && s@ == text@.subrange(a, b + 1),
            None => r is None,
        },
{
    let cs = chars_of(text);
    let mut balance: i128 = 0;
    let mut start: Option<usize> = None;
    let mut i: usize = 0;
    let ghost goal = balanced_span(text@, start_char, end_char, 0, 0, None);
    while i < cs.len()
        invariant
            i <= cs@.len(),
            cs@ == text@,
            -(i as int) <= balance <= i as int,
            start matches Some(s) ==> s < i,
            goal == balanced_span(text@, start_char, end_char, 0, 0, None),
            goal == balanced_span(text@, start_char, end_char, i as int,
                balance as int, match start { Some(s) => Some(s as int), None => None }),
        decreases cs.len() - i,
    {
        let ch = cs[i];
        if ch == start_char {
            if balance == 0 {
                start = Some(i);
            }
            balance = balance + 1;
        } else if ch == end_char {
            balance = balance - 1;
            if balance == 0 {
                match start {
                    Some(s) => {
                        proof { lemma_span_bounds(text@, start_char, end_char, 0, 0, None); }
                        let inner = slice_chars(&cs, s, i + 1);
                        return Some(string_from_chars(inner.as_slice()));
                    },
                    None => {},
                }
            }
        }
        i = i + 1;
    }
    None
}

/// The trimmed pieces that are not empty, joined by single spaces.
pub open spec fn joined_trimmed(segs: Seq<Seq<char>>) -> Seq<char>
    decreases segs.len(),
{
    if segs.len() == 0 {
        Seq::empty()
    } else {
        let acc = joined_trimmed(segs.drop_last());
        let t = trim(segs.last());
        if t.len() == 0 {
            acc
        } else if acc.len() == 0 {
            t
        } else {
            acc + seq![' '] + t
        }
    }
}

/// A text with each of its lines trimmed, blank lines dropped, and the rest
/// joined by single spaces. (Trimming each line also removes the carriage
/// returns of the line endings and the text's outer whitespace.)
pub fn clean_text(text: &str) -> (r: String)
    ensures
        r@ == joined_trimmed(split_lines(text@)),
{
    let cs = chars_of(text);
    let segs = split_lines_exec(&cs);
    let ghost sv = segs@.map_values(|v: Vec<char>| v@);
    let mut out: Vec<char> = Vec::new();
    let mut k: usize = 0;
    while k < segs.len()
        invariant
            k <= segs@.len(),
            sv == segs@.map_values(|v: Vec<char>| v@),
            out@ == joined_trimmed(sv.take(k as int)),
        decreases segs.len() - k,
    {
        let t = trim_chars(&segs[k]);
        proof {
            assert(sv.take(k + 1).drop_last() =~= sv.take(k as int));
            assert(sv.take(k + 1).last() == segs@[k as int]@);
        }
        if t.len() > 0 {
            if out.len() > 0 {
                out.push(' ');
            }
            let mut j: usize = 0;
            let ghost base = out@;
            while j < t.len()
                invariant
                    j <= t@.len(),
                    out@ == base + t@.take(j as int),
                decreases t.len() - j,
            {
                out.push(t[j]);
                j = j + 1;
                assert(out@ =~= base + t@.take(j as int));
            }
            assert(t@.take(t@.len() as int) =~= t@);
            proof {
                if joined_trimmed(sv.take(k as int)).len() != 0 {
                    assert(out@ =~= joined_trimmed(sv.take(k as int)) + seq![' '] + t@);
                } else {
                    assert(out@ =~= t@);
                }
            }
        }
        k = k + 1;
    }
    assert(sv.take(segs@.len() as int) =~= sv);
    string_from_chars(out.as_slice())
}

/// A text has no newline.
pub open spec fn one_line(s: Seq<char>) -> bool {
    forall|i: int| 0 <= i < s.len() ==> #[trigger] s[i] != '\n'
}

/// A text starts and ends with a character that trimming keeps, or is empty.
pub open spec fn tight(s: Seq<char>) -> bool {
    s.len() == 0 || (!is_white(s[0]) && !is_white(s.last()))
}

proof fn lemma_strip_start(s: Seq<char>, i: int)
    requires
        0 <= i,
    ensures
        strip_start(s, i, false) == s.len() || (i <= strip_start(s, i, false) < s.len()
            && !is_white(s[strip_start(s, i, false)])),
    decreases s.len() - i,
{
    if i < s.len() && strips(s[i], false) {
        lemma_strip_start(s, i + 1);
    }
}

proof fn lemma_strip_end(s: Seq<char>, j: int)
    requires
        j <= s.len(),
    ensures
        strip_end(s, j, false) == 0 || (0 < strip_end(s, j, false) <= j
            && !is_white(s[strip_end(s, j, false) - 1])),
    decreases j,
{
    if 0 < j && strips(s[j - 1], false) {
        lemma_strip_end(s, j - 1);
    }
}

/// A trimmed text is tight, and keeps a one-line text on one line.
proof fn lemma_trim_tight(s: Seq<char>)
    ensures
        tight(trim(s)),
        one_line(s) ==> one_line(trim(s)),
{
    lemma_strip_start(s, 0);
    lemma_strip_end(s, s.len() as int);
    let a = strip_start(s, 0, false);
    let b = strip_end(s, s.len() as int, false);
    if a < b {
        assert(trim(s) == s.subrange(a, b));
        assert(trim(s)[0] == s[a]);
        assert(trim(s).last() == s[b - 1]);
        if one_line(s) {
            assert forall|i: int| 0 <= i < trim(s).len() implies #[trigger] trim(s)[i] != '\n' by {
                assert(trim(s)[i] == s[a + i]);
            }
        }
    }
}

/// Trimming leaves a tight text as it is.
proof fn lemma_trim_tight_fixed(s: Seq<char>)
    requires
        tight(s),
    ensures
        trim(s) == s,
{
    if s.len() > 0 {
        assert(strip_start(s, 0, false) == 0);
        assert(strip_end(s, s.len() as int, false) == s.len());
        assert(s.subrange(0, s.len() as int) =~= s);
    } else {
        assert(trim(s) =~= s);
    }
}

/// The pieces between newlines hold no newline.
proof fn lemma_split_lines_one_line(s: Seq<char>)
    ensures
        forall|k: int| 0 <= k < split_lines(s).len() ==> one_line(#[trigger] split_lines(s)[k]),
    decreases s.len(),
{
    if s.len() > 0 {
        let prev = split_lines(s.drop_last());
        lemma_split_lines_one_line(s.drop_last());
        crate::textops::lemma_split_lines_len(s.drop_last());
        if s.last() != '\n' {
            let last = prev.last().push(s.last());
            assert(one_line(prev[prev.len() - 1]));
            assert forall|i: int| 0 <= i < last.len() implies #[trigger] last[i] != '\n' by {
                if i < last.len() - 1 {
                    assert(last[i] == prev[prev.len() - 1][i]);
                }
            }
            assert forall|k: int| 0 <= k < split_lines(s).len() implies one_line(#[trigger] split_lines(s)[k]) by {
                if k < prev.len() - 1 {
                    assert(split_lines(s)[k] == prev[k]);
                }
            }
        } else {
            assert forall|k: int| 0 <= k < split_lines(s).len() implies one_line(#[trigger] split_lines(s)[k]) by {
                if k < prev.len() {
                    assert(split_lines(s)[k] == prev[k]);
                } else {
                    assert(split_lines(s)[k] =~= Seq::<char>::empty());
                }
            }
        }
    }
}

/// A text with no newline is one piece.
proof fn lemma_split_one_line(s: Seq<char>)
    requires
        one_line(s),
    ensures
        split_lines(s) == seq![s],
    decreases s.len(),
{
    if s.len() > 0 {
        assert(one_line(s.drop_last())) by {
            assert forall|i: int| 0 <= i < s.drop_last().len() implies #[trigger] s.drop_last()[i] != '\n' by {
                assert(s.drop_last()[i] == s[i]);
            }
        }
        lemma_split_one_line(s.drop_last());
        let prev = split_lines(s.drop_last());
        assert(prev == seq![s.drop_last()]);
        assert(prev.len() == 1);
        assert(prev.last() == s.drop_last());
        assert(s.last() == s[s.len() - 1]);
        assert(s.last() != '\n');
        assert(s.drop_last().push(s.last()) =~= s);
        assert(split_lines(s) == prev.update(0, s.drop_last().push(s.last())));
        assert(split_lines(s) =~= seq![s]);
    } else {
        assert(s =~= Seq::<char>::empty());
        assert(split_lines(s) =~= seq![s]);
    }
}

/// Joining trimmed one-line pieces gives a tight one-line text.
proof fn lemma_joined_tight(segs: Seq<Seq<char>>)
    requires
        forall|k: int| 0 <= k < segs.len() ==> one_line(#[trigger] segs[k]),
    ensures
        tight(joined_trimmed(segs)),
        one_line(joined_trimmed(segs)),
    decreases segs.len(),
{
    if segs.len() > 0 {
        let init = segs.drop_last();
        assert forall|k: int| 0 <= k < init.len() implies one_line(#[trigger] init[k]) by {
            assert(init[k] == segs[k]);
        }
        lemma_joined_tight(init);
        assert(one_line(segs[segs.len() - 1]));
        lemma_trim_tight(segs.last());
        let acc = joined_trimmed(init);
        let t = trim(segs.last());
        if t.len() != 0 && acc.len() != 0 {
            let j = acc + seq![' '] + t;
            assert(j[0] == acc[0]);
            assert(j.last() == t.last());
            assert forall|i: int| 0 <= i < j.len() implies #[trigger] j[i] != '\n' by {
                if i < acc.len() {
                    assert(j[i] == acc[i]);
                } else if i > acc.len() {
                    assert(j[i] == t[i - acc.len() - 1]);
                }
            }
        }
    } else {
        assert(tight(Seq::<char>::empty()));
    }
}

/// Cleaning a cleaned text changes nothing: the result of [`clean_text`] is
/// one line, starts and ends with a character that is not whitespace, and
/// cleaning it again gives it back.
pub proof fn lemma_clean_text_idempotent(text: Seq<char>)
    ensures
        one_line(joined_trimmed(split_lines(text))),
        tight(joined_trimmed(split_lines(text))),
        joined_trimmed(split_lines(joined_trimmed(split_lines(text)))) == joined_trimmed(split_lines(text)),
{
    let j = joined_trimmed(split_lines(text));
    lemma_split_lines_one_line(text);
    lemma_joined_tight(split_lines(text));
    lemma_split_one_line(j);
    lemma_trim_tight_fixed(j);
    let one = seq![j];
    assert(one.drop_last() =~= Seq::<Seq<char>>::empty());
    assert(one.last() == j);
    assert(joined_trimmed(one.drop_last()) == Seq::<char>::empty());
    assert(trim(j) == j);
    if j.len() == 0 {
        assert(j =~= Seq::<char>::empty());
    }
    assert(joined_trimmed(one) == j);
    assert(split_lines(j) == one);
}

/// The maximal runs of non-whitespace characters of a text, as `str::split_whitespace` gives them.
pub open spec fn words_of(s: Seq<char>) -> Seq<Seq<char>>
    decreases s.len(),
{
    if s.len() == 0 {
        Seq::empty()
    } else {
        let prev = words_of(s.drop_last());
        let c = s.last();
        if is_white(c) {
            prev
        } else if s.len() >= 2 && !is_white(s[s.len() - 2]) {
            prev.update(prev.len() - 1, prev.last().push(c))
        } else {
            prev.push(seq![c])
        }
    }
}

/// A text ending in a non-whitespace character has a word.
proof fn lemma_words_nonempty(s: Seq<char>)
    requires
        s.len() > 0,
        !is_white(s.last()),
    ensures
        words_of(s).len() >= 1,
    decreases s.len(),
{
    if s.len() >= 2 && !is_white(s[s.len() - 2]) {
        assert(s.drop_last().last() == s[s.len() - 2]);
        lemma_words_nonempty(s.drop_last());
    }
}

fn words_exec(cs: &Vec<char>) -> (r: Vec<Vec<char>>)
    ensures
        r@.map_values(|v: Vec<char>| v@) == words_of(cs@),
{
    let mut words: Vec<Vec<char>> = Vec::new();
    let mut cur: Vec<char> = Vec::new();
    let mut in_word = false;
    let mut i: usize = 0;
    assert(cs@.take(0) =~= Seq::<char>::empty());
    while i < cs.len()
        invariant
            i <= cs@.len(),
            in_word == (i > 0 && !is_white(cs@[i - 1])),
            in_word ==> words@.map_values(|v: Vec<char>| v@).push(cur@) == words_of(cs@.take(i as int)),
            !in_word ==> words@.map_values(|v: Vec<char>| v@) == words_of(cs@.take(i as int)) && cur@.len() == 0,
        decreases cs.len() - i,
    {
        let c = cs[i];
        let ghost before = words@.map_values(|v: Vec<char>| v@);
        let ghost cur0 = cur@;
        proof {
            assert(cs@.take(i + 1).drop_last() =~= cs@.take(i as int));
            assert(cs@.take(i + 1).last() == c);
            if i >= 1 {
                assert(cs@.take(i + 1)[i - 1] == cs@[i - 1]);
            }
        }
        if is_whitespace_char(c) {
            if in_word {
                let done = cur;
                cur = Vec::new();
                words.push(done);
                assert(words@.map_values(|v: Vec<char>| v@) =~= before.push(cur0));
                in_word = false;
            }
        } else {
            cur.push(c);
            if in_word {
                assert(before.push(cur@) =~= before.push(cur0).update(before.len() as int, cur0.push(c)));
            } else {
                assert(cur@ =~= seq![c]);
            }
            in_word = true;
        }
        i = i + 1;
    }
    assert(cs@.take(cs@.len() as int) =~= cs@);
    if in_word {
        let ghost before = words@.map_values(|v: Vec<char>| v@);
        let ghost last = cur@;
        words.push(cur);
        assert(words@.map_values(|v: Vec<char>| v@) =~= before.push(last));
    }
    words
}

/// The chunks finished and the chunk being filled after packing `words` greedily:
/// a word goes onto the current chunk, after a space, unless the chunk is not
/// empty and its length in bytes plus the word's plus one would exceed `max`, in
/// which case the chunk is finished first.
pub open spec fn chunk_state(words: Seq<Seq<char>>, max: usize) -> (Seq<Seq<char>>, Seq<char>)
    decreases words.len(),
{
    if words.len() == 0 {
        (Seq::empty(), Seq::empty())
    } else {
        let prev = chunk_state(words.drop_last(), max);
        let w = words.last();
        let flush = byte_count(prev.1) as int + byte_count(w) as int + 1 > max as int && prev.1.len() != 0;
        let chunks = if flush { prev.0.push(trim(prev.1)) } else { prev.0 };
        let cur = if flush { Seq::empty() } else { prev.1 };
        (chunks, if cur.len() != 0 { cur.push(' ') + w } else { cur + w })
    }
}

/// The chunks of a text: its words packed greedily, each chunk at most `max`
/// bytes unless a single word is longer.
pub open spec fn chunks_of(text: Seq<char>, max: usize) -> Seq<Seq<char>> {
    let st = chunk_state(words_of(text), max);
    if st.1.len() != 0 { st.0.push(trim(st.1)) } else { st.0 }
}

fn trimmed_string(s: &String) -> (r: String)
    ensures
        r@ == trim(s@),
{
    let cs = chars_of(s.as_str());
    let t = trim_chars(&cs);
    string_from_chars(t.as_slice())
}

/// Splits a text into chunks of whole words, as [`chunks_of`] states.
pub fn chunk_text(text: &str, max_chunk_size: usize) -> (r: Vec<String>)
    ensures
        r@.map_values(|s: String| s@) == chunks_of(text@, max_chunk_size),
{
    let cs = chars_of(text);
    let words = words_exec(&cs);
    let ghost wv = words@.map_values(|v: Vec<char>| v@);
    let mut chunks: Vec<String> = Vec::new();
    let mut cur = String::new();
    let mut k: usize = 0;
    while k < words.len()
        invariant
            k <= words@.len(),
            wv == words@.map_values(|v: Vec<char>| v@),
            wv == words_of(text@),
            (chunks@.map_values(|s: String| s@), cur@) == chunk_state(wv.take(k as int), max_chunk_size),
        decreases words.len() - k,
    {
        let w = string_from_chars(words[k].as_slice());
        proof {
            assert(wv.take(k + 1).drop_last() =~= wv.take(k as int));
            assert(wv.take(k + 1).last() == w@);
        }
        let cur_len = text_len(cur.as_str());
        let word_len = text_len(w.as_str());
        let ghost before = chunks@.map_values(|s: String| s@);
        if (cur_len as u128) + (word_len as u128) + 1 > (max_chunk_size as u128) && !cur.as_str().is_empty() {
            let t = trimmed_string(&cur);
            chunks.push(t);
            assert(chunks@.map_values(|s: String| s@) =~= before.push(trim(cur@)));
            cur = String::new();
        }
        let ghost cur1 = cur@;
        if !cur.as_str().is_empty() {
            cur.append(" ");
            proof { reveal_strlit(" "); }
            assert(cur@ =~= cur1.push(' '));
        }
        cur.append(w.as_str());
        k = k + 1;
    }
    assert(wv.take(words@.len() as int) =~= wv);
    if !cur.as_str().is_empty() {
        let ghost before = chunks@.map_values(|s: String| s@);
        let t = trimmed_string(&cur);
        chunks.push(t);
        assert(chunks@.map_values(|s: String| s@) =~= before.push(trim(cur@)));
    }
    chunks
}

/// Whether a line opens or closes a fenced code block: trimmed, it starts with three backticks.
pub open spec fn is_fence(line: Seq<char>) -> bool {
    let t = trim(line);
    t.len() >= 3 && t.subrange(0, 3) == "```"@
}

/// The language a fence line names: what follows the backticks, trimmed, if anything.
pub open spec fn fence_language(line: Seq<char>) -> Option<Seq<char>> {
    let t = trim(line);
    let rest = trim(t.subrange(3, t.len() as int));
    if rest.len() == 0 { None } else { Some(rest) }
}

/// The blocks found, whether a block is open, and its language and content so
/// far, after reading `lines`: a fence line opens a block, the next fence line
/// closes it, and the lines between make its content, joined by newlines
/// (leading empty lines are not kept).
pub open spec fn fence_state(lines: Seq<Seq<char>>) -> (Seq<(Option<Seq<char>>, Seq<char>)>, bool, Option<Seq<char>>, Seq<char>)
    decreases lines.len(),
{
    if lines.len() == 0 {
        (Seq::empty(), false, None, Seq::empty())
    } else {
        let prev = fence_state(lines.drop_last());
        let line = lines.last();
        if !prev.1 {
            if is_fence(line) {
                (prev.0, true, fence_language(line), Seq::empty())
            } else {
                prev
            }
        } else if is_fence(line) {
            (prev.0.push((prev.2, prev.3)), false, None, Seq::empty())
        } else {
            (prev.0, true, prev.2, if prev.3.len() != 0 { prev.3.push('\n') + line } else { prev.3 + line })
        }
    }
}

/// The fenced code blocks of a text, with their languages; a block still open
/// at the end of the text is kept.
pub open spec fn code_blocks_of(text: Seq<char>) -> Seq<(Option<Seq<char>>, Seq<char>)> {
    let st = fence_state(lines_of(text));
    if st.1 { st.0.push((st.2, st.3)) } else { st.0 }
}

/// The text of an optional language name.
pub open spec fn lang_view(o: Option<String>) -> Option<Seq<char>> {
    match o {
        Some(l) => Some(l@),
        None => None,
    }
}

/// The language and content of a found block.
pub open spec fn block_view(b: (Option<String>, String)) -> (Option<Seq<char>>, Seq<char>) {
    (lang_view(b.0), b.1@)
}

fn fence_check(line: &Vec<char>) -> (r: Option<Option<String>>)
    ensures
        is_fence(line@) ==> (r matches Some(lang) && lang_view(lang) == fence_language(line@)),
        !is_fence(line@) ==> r is None,
{
    let t = trim_chars(line);
    if t.len() >= 3 && t[0] == '`' && t[1] == '`' && t[2] == '`' {
        proof {
            reveal_strlit("```");
            assert(t@.subrange(0, 3) =~= "```"@);
        }
        let rest = slice_chars(&t, 3, t.len());
        let lang = trim_chars(&rest);
        if lang.len() == 0 {
            Some(None)
        } else {
            Some(Some(string_from_chars(lang.as_slice())))
        }
    } else {
        proof {
            reveal_strlit("```");
            if t@.len() >= 3 && t@.subrange(0, 3) == "```"@ {
                assert(t@[0] == t@.subrange(0, 3)[0]);
                assert(t@[1] == t@.subrange(0, 3)[1]);
                assert(t@[2] == t@.subrange(0, 3)[2]);
            }
        }
        None
    }
}

/// The fenced code blocks of a text, as [`code_blocks_of`] states.
pub fn extract_code_blocks(text: &str) -> (r: Vec<(Option<String>, String)>)
    ensures
        r@.map_values(|b: (Option<String>, String)| block_view(b)) == code_blocks_of(text@),
{
    let cs = chars_of(text);
    let lines = lines_exec(&cs);
    let ghost lv = lines@.map_values(|v: Vec<char>| v@);
    let mut blocks: Vec<(Option<String>, String)> = Vec::new();
    let mut inside = false;
    let mut lang: Option<String> = None;
    let mut content: Vec<char> = Vec::new();
    let mut k: usize = 0;
    while k < lines.len()
        invariant
            k <= lines@.len(),
            lv == lines@.map_values(|v: Vec<char>| v@),
            lv == lines_of(text@),
            (blocks@.map_values(|b: (Option<String>, String)| block_view(b)), inside,
                lang_view(lang), content@) == fence_state(lv.take(k as int)),
        decreases lines.len() - k,
    {
        let line = &lines[k];
        proof {
            assert(lv.take(k + 1).drop_last() =~= lv.take(k as int));
            assert(lv.take(k + 1).last() == line@);
        }
        let fence = fence_check(line);
        let ghost before = blocks@.map_values(|b: (Option<String>, String)| block_view(b));
        if !inside {
            match fence {
                Some(l) => {
                    inside = true;
                    lang = l;
                    content = Vec::new();
                },
                None => {},
            }
        } else {
            match fence {
                Some(_) => {
                    let done_lang = lang;
                    lang = None;
                    let body = string_from_chars(content.as_slice());
                    let ghost entry = (lang_view(done_lang), content@);
                    blocks.push((done_lang, body));
                    assert(blocks@.map_values(|b: (Option<String>, String)| block_view(b)) =~= before.push(entry));
                    content = Vec::new();
                    inside = false;
                },
                None => {
                    let ghost c0 = content@;
                    if content.len() > 0 {
                        content.push('\n');
                    }
                    let mut j: usize = 0;
                    let ghost base = content@;
                    while j < line.len()
                        invariant
                            j <= line@.len(),
                            content@ == base + line@.take(j as int),
                        decreases line.len() - j,
                    {
                        content.push(line[j]);
                        j = j + 1;
                        assert(content@ =~= base + line@.take(j as int));
                    }
                    assert(line@.take(line@.len() as int) =~= line@);
                    proof {
                        if c0.len() != 0 {
                            assert(content@ =~= c0.push('\n') + line@);
                        } else {
                            assert(content@ =~= c0 + line@);
                        }
                    }
                },
            }
        }
        k = k + 1;
    }
    assert(lv.take(lines@.len() as int) =~= lv);
    if inside {
        let ghost before = blocks@.map_values(|b: (Option<String>, String)| block_view(b));
        let ghost entry = (lang_view(lang), content@);
        let body = string_from_chars(content.as_slice());
        blocks.push((lang, body));
        assert(blocks@.map_values(|b: (Option<String>, String)| block_view(b)) =~= before.push(entry));
    }
    blocks
}

/// Whether a fenced block may hold JSON: marked `json`, or not marked at all.
pub open spec fn json_fence(language: Option<Seq<char>>) -> bool {
    language == Some("json"@) || language is None
}

/// The content of the first block, from position `i` on, that may hold JSON and parses as JSON.
pub open spec fn first_json_block(blocks: Seq<(Option<Seq<char>>, Seq<char>)>, i: int) -> Option<Seq<char>>
    decreases blocks.len() - i,
{
    if i < 0 || i >= blocks.len() {
        None
    } else if json_fence(blocks[i].0) && parses_as_json(blocks[i].1) {
        Some(blocks[i].1)
    } else {
        first_json_block(blocks, i + 1)
    }
}

/// The text of the first balanced span from `open` to `close`, when it parses as JSON.
pub open spec fn parsing_span(text: Seq<char>, open: char, close: char) -> Option<Seq<char>> {
    match balanced_span(text, open, close, 0, 0, None) {
        Some((a, b)) => if parses_as_json(text.subrange(a, b + 1)) { Some(text.subrange(a, b + 1)) } else { None },
        None => None,
    }
}

/// The JSON text a model's reply holds: the whole reply when it parses; else the
/// first fenced block marked `json` or unmarked that parses; else the first
/// balanced object when it parses; else the first balanced array when it
/// parses; else none.
pub open spec fn json_candidate(text: Seq<char>) -> Option<Seq<char>> {
    if parses_as_json(text) {
        Some(text)
    } else if first_json_block(code_blocks_of(text), 0) is Some {
        first_json_block(code_blocks_of(text), 0)
    } else if parsing_span(text, '{', '}') is Some {
        parsing_span(text, '{', '}')
    } else {
        parsing_span(text, '[', ']')
    }
}

proof fn lemma_first_json_block_parses(blocks: Seq<(Option<Seq<char>>, Seq<char>)>, i: int)
    ensures
        first_json_block(blocks, i) matches Some(c) ==> parses_as_json(c),
    decreases blocks.len() - i,
{
    if 0 <= i < blocks.len() && !(json_fence(blocks[i].0) && parses_as_json(blocks[i].1)) {
        lemma_first_json_block_parses(blocks, i + 1);
    }
}

/// What is taken from a model's reply is always JSON text, and the reply
/// itself when it is JSON.
pub proof fn lemma_json_candidate(text: Seq<char>)
    ensures
        json_candidate(text) matches Some(c) ==> parses_as_json(c),
        parses_as_json(text) ==> json_candidate(text) == Some(text),
{
    lemma_first_json_block_parses(code_blocks_of(text), 0);
}

/// The block taken from a list is the first one marked `json` or unmarked
/// whose content parses: it is such a block, and no earlier block is.
pub proof fn lemma_first_json_block(blocks: Seq<(Option<Seq<char>>, Seq<char>)>, i: int)
    requires
        0 <= i,
    ensures
        first_json_block(blocks, i) matches Some(c) ==> exists|k: int| i <= k < blocks.len()
            && json_fence(blocks[k].0) && parses_as_json(blocks[k].1) && c == blocks[k].1
            && forall|j: int| i <= j < k ==> !(json_fence(#[trigger] blocks[j].0) && parses_as_json(blocks[j].1)),
        first_json_block(blocks, i) is None ==> forall|j: int| i <= j < blocks.len()
            ==> !(json_fence(#[trigger] blocks[j].0) && parses_as_json(blocks[j].1)),
    decreases blocks.len() - i,
{
    if i < blocks.len() && !(json_fence(blocks[i].0) && parses_as_json(blocks[i].1)) {
        lemma_first_json_block(blocks, i + 1);
        if first_json_block(blocks, i) is Some {
            let k = choose|k: int| i + 1 <= k < blocks.len()
                && json_fence(blocks[k].0) && parses_as_json(blocks[k].1) && first_json_block(blocks, i)->0 == blocks[k].1
                && forall|j: int| i + 1 <= j < k ==> !(json_fence(#[trigger] blocks[j].0) && parses_as_json(blocks[j].1));
            assert forall|j: int| i <= j < k implies !(json_fence(#[trigger] blocks[j].0) && parses_as_json(blocks[j].1)) by {}
        }
    } else if i < blocks.len() {
        assert forall|j: int| i <= j < i implies !(json_fence(#[trigger] blocks[j].0) && parses_as_json(blocks[j].1)) by {}
    }
}

/// When a reply is no JSON itself but a fenced block in it is, the first such
/// block is taken, before any balanced span.
pub proof fn lemma_fenced_before_spans(text: Seq<char>)
    requires
        !parses_as_json(text),
        first_json_block(code_blocks_of(text), 0) is Some,
    ensures
        json_candidate(text) == first_json_block(code_blocks_of(text), 0),
{
}

/// When neither a model's reply nor any fenced block in it parses as JSON and
/// the first balanced span from `{` to `}` (at `a` to `b`) does, that object is
/// what is taken, whatever arrays the reply also holds: it starts with `{` and
/// ends with `}`.
pub proof fn lemma_object_before_array(text: Seq<char>, a: int, b: int)
    requires
        !parses_as_json(text),
        first_json_block(code_blocks_of(text), 0) is None,
        balanced_span(text, '{', '}', 0, 0, None) == Some((a, b)),
        parses_as_json(text.subrange(a, b + 1)),
    ensures
        json_candidate(text) == Some(text.subrange(a, b + 1)),
        text.subrange(a, b + 1)[0] == '{',
        text.subrange(a, b + 1).last() == '}',
{
    lemma_span_ends(text, '{', '}');
}

/// The JSON text a model's reply holds, as [`json_candidate`] states.
pub fn extract_json_text(text: &str) -> (r: Option<String>)
    ensures
        lang_view(r) == json_candidate(text@),
{
    if is_json_text(text) {
        return Some(String::from_str(text));
    }
    let blocks = extract_code_blocks(text);
    let ghost bv = blocks@.map_values(|b: (Option<String>, String)| block_view(b));
    let mut i: usize = 0;
    while i < blocks.len()
        invariant
            i <= blocks@.len(),
            bv == blocks@.map_values(|b: (Option<String>, String)| block_view(b)),
            bv == code_blocks_of(text@),
            first_json_block(bv, 0) == first_json_block(bv, i as int),
            !parses_as_json(text@),
        decreases blocks.len() - i,
    {
        let marked = match &blocks[i].0 {
            Some(l) => crate::text::str_eq(l.as_str(), "json"),
            None => true,
        };
        assert(bv[i as int] == block_view(blocks@[i as int]));
        assert(marked == json_fence(bv[i as int].0));
        if marked && is_json_text(blocks[i].1.as_str()) {
            assert(first_json_block(bv, i as int) == Some(bv[i as int].1));
            return Some(blocks[i].1.clone());
        }
        i = i + 1;
    }
    match find_json_delimiters(text, '{', '}') {
        Some(object) => {
            if is_json_text(object.as_str()) {
                return Some(object);
            }
        },
        None => {},
    }
    match find_json_delimiters(text, '[', ']') {
        Some(array) => {
            if is_json_text(array.as_str()) {
                return Some(array);
            }
            None
        },
        None => None,
    }
}

} // verus!
