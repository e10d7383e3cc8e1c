use vstd::prelude::*;
use crate::runtime::interpreter::{read_i32_le, read_u32_le, Interpreter};
use crate::runtime::opcode::{decode_opcode, ErrorView, InterpreterError, OpCode};
use crate::runtime::semantics::{imm_i32, imm_u32};
use crate::runtime::value::{values_view, Value, ValueView};
use crate::text::{decimal_int, push_decimal_i64, push_str_chars, string_from_chars};

verus! {

/// A run of bytecode that is either plain computation or foreign calls.
#[derive(Debug, Clone, PartialEq, Eq)]
pub enum BytecodeSegment {
    Computational(Vec<u8>),
    Ffi(Vec<u8>),
}

/// The abstract content of a segment.
pub struct SegmentView {
    pub ffi: bool,
    pub bytes: Seq<u8>,
}

impl View for BytecodeSegment {
    type V = SegmentView;

    open spec fn view(&self) -> SegmentView {
        match self {
            BytecodeSegment::Computational(b) => SegmentView { ffi: false, bytes: b@ },
            BytecodeSegment::Ffi(b) => SegmentView { ffi: true, bytes: b@ },
        }
    }
}

/// The segment holding `current`, of the kind `in_compute` says, or none when `current` is empty.
pub open spec fn emit(current: Seq<u8>, in_compute: bool) -> Seq<SegmentView> {
    if current.len() > 0 { seq![SegmentView { ffi: !in_compute, bytes: current }] } else { Seq::empty() }
}

/// Splits `code` from `ip` into computational and foreign-call segments, with
/// `current` the bytes gathered so far for a segment of the kind `in_compute` says.
///
/// An opcode byte switches the kind when it is `CallFfi` in a computational run
/// or another opcode in a foreign-call run; a `Push` keeps its four operand bytes,
/// a `CallFfi` its length, name and count bytes; the scan stops where an operand
/// is cut short. Bytes that encode no opcode stay in the current segment.
pub open spec fn split_from(code: Seq<u8>, ip: int, current: Seq<u8>, in_compute: bool) -> Seq<SegmentView>
    decreases code.len() - ip,
{
    if ip < 0 || ip >= code.len() {
        emit(current, in_compute)
    } else {
        match OpCode::decode(code[ip]) {
            None => split_from(code, ip + 1, current.push(code[ip]), in_compute),
            Some(op) => {
                let is_ffi = op == OpCode::CallFfi;
                let switch = (is_ffi && in_compute) || (!is_ffi && !in_compute);
                let before = if switch { emit(current, in_compute) } else { Seq::empty() };
                let kind = if switch { !in_compute } else { in_compute };
                let cur = if switch { seq![code[ip]] } else { current.push(code[ip]) };
                let next = ip + 1;
                if op == OpCode::Push {
                    if next + 4 <= code.len() {
                        before + split_from(code, next + 4, cur + code.subrange(next, next + 4), kind)
                    } else {
                        before + emit(cur, kind)
                    }
                } else if op == OpCode::CallFfi {
                    if next + 4 <= code.len() {
                        let n = imm_u32(code, next);
                        let at = next + 4;
                        let cur4 = cur + code.subrange(next, at);
                        if at + n < code.len() {
                            before + split_from(code, at + n + 1, cur4 + code.subrange(at, at + n + 1), kind)
                        } else {
                            before + emit(cur4, kind)
                        }
                    } else {
                        before + emit(cur, kind)
                    }
                } else {
                    before + split_from(code, next, cur, kind)
                }
            },
        }
    }
}

/// The bytes of segments, one after another.
pub open spec fn concat_segments(segs: Seq<SegmentView>) -> Seq<u8>
    decreases segs.len(),
{
    if segs.len() == 0 { Seq::empty() } else { concat_segments(segs.drop_last()) + segs.last().bytes }
}

proof fn lemma_concat_append(a: Seq<SegmentView>, b: Seq<SegmentView>)
    ensures
        concat_segments(a + b) == concat_segments(a) + concat_segments(b),
    decreases b.len(),
{
    if b.len() == 0 {
        assert(a + b =~= a);
    } else {
        lemma_concat_append(a, b.drop_last());
        assert((a + b).drop_last() =~= a + b.drop_last());
    }
}

proof fn lemma_concat_emit(current: Seq<u8>, in_compute: bool)
    ensures
        concat_segments(emit(current, in_compute)) == current,
{
    if current.len() > 0 {
        let e = emit(current, in_compute);
        assert(e.drop_last() =~= Seq::<SegmentView>::empty());
        assert(concat_segments(e.drop_last()) == Seq::<u8>::empty());
        assert(concat_segments(e) == concat_segments(e.drop_last()) + e.last().bytes);
        assert(Seq::<u8>::empty() + current =~= current);
    } else {
        assert(current =~= Seq::<u8>::empty());
    }
}

/// Splitting loses and reorders nothing: the segments, concatenated, are the
/// bytes gathered so far followed by a prefix of the rest of the code, and no
/// segment is empty.
#[verifier::rlimit(80)]
#[verifier::spinoff_prover]
pub proof fn lemma_split_is_prefix(code: Seq<u8>, ip: int, current: Seq<u8>, in_compute: bool)
    requires
        0 <= ip <= code.len(),
    ensures
        exists|stop: int| ip <= stop <= code.len()
            && concat_segments(split_from(code, ip, current, in_compute)) == current + code.subrange(ip, stop),
        forall|i: int| 0 <= i < split_from(code, ip, current, in_compute).len()
            ==> #[trigger] split_from(code, ip, current, in_compute)[i].bytes.len() > 0,
    decreases code.len() - ip,
{
    let r = split_from(code, ip, current, in_compute);
    if ip >= code.len() {
        lemma_concat_emit(current, in_compute);
        assert(code.subrange(ip, ip) =~= Seq::<u8>::empty());
        assert(current + code.subrange(ip, ip) =~= current);
    } else {
        match OpCode::decode(code[ip]) {
            None => {
                lemma_split_is_prefix(code, ip + 1, current.push(code[ip]), in_compute);
                let stop = choose|stop: int| ip + 1 <= stop <= code.len()
                    && concat_segments(split_from(code, ip + 1, current.push(code[ip]), in_compute))
                        == current.push(code[ip]) + #[trigger] code.subrange(ip + 1, stop);
                assert(current.push(code[ip]) + code.subrange(ip + 1, stop) =~= current + code.subrange(ip, stop));
            },
            Some(op) => {
                let is_ffi = op == OpCode::CallFfi;
                let switch = (is_ffi && in_compute) || (!is_ffi && !in_compute);
                let before = if switch { emit(current, in_compute) } else { Seq::<SegmentView>::empty() };
                let kind = if switch { !in_compute } else { in_compute };
                let cur = if switch { seq![code[ip]] } else { current.push(code[ip]) };
                let next = ip + 1;
                lemma_concat_emit(current, in_compute);
                assert(concat_segments(before) + cur =~= current.push(code[ip]));
                assert(forall|i: int| 0 <= i < before.len() ==> #[trigger] before[i].bytes.len() > 0);
                if op == OpCode::Push {
                    if next + 4 <= code.len() {
                        let cur2 = cur + code.subrange(next, next + 4);
                        lemma_split_is_prefix(code, next + 4, cur2, kind);
                        let rest = split_from(code, next + 4, cur2, kind);
                        lemma_concat_append(before, rest);
                        let stop = choose|stop: int| next + 4 <= stop <= code.len()
                            && concat_segments(rest) == cur2 + #[trigger] code.subrange(next + 4, stop);
                        assert(concat_segments(before) + cur2 + code.subrange(next + 4, stop) =~= current + code.subrange(ip, stop));
                        assert(r == before + rest);
                        assert forall|i: int| 0 <= i < r.len() implies #[trigger] r[i].bytes.len() > 0 by {
                            if i >= before.len() { assert(r[i] == rest[i - before.len()]); }
                        }
                    } else {
                        lemma_concat_emit(cur, kind);
                        lemma_concat_append(before, emit(cur, kind));
                        assert(concat_segments(before) + cur =~= current + code.subrange(ip, next));
                        assert forall|i: int| 0 <= i < r.len() implies #[trigger] r[i].bytes.len() > 0 by {
                            if i >= before.len() { assert(r[i] == emit(cur, kind)[i - before.len()]); }
                        }
                    }
                } else if op == OpCode::CallFfi {
                    if next + 4 <= code.len() {
                        let n = imm_u32(code, next);
                        let at = next + 4;
                        let cur4 = cur + code.subrange(next, at);
                        if at + n < code.len() {
                            let cur5 = cur4 + code.subrange(at, at + n + 1);
                            lemma_split_is_prefix(code, at + n + 1, cur5, kind);
                            let rest = split_from(code, at + n + 1, cur5, kind);
                            lemma_concat_append(before, rest);
                            let stop = choose|stop: int| at + n + 1 <= stop <= code.len()
                                && concat_segments(rest) == cur5 + #[trigger] code.subrange(at + n + 1, stop);
                            assert(concat_segments(before) + cur5 + code.subrange(at + n + 1, stop) =~= current + code.subrange(ip, stop));
                            assert(r == before + rest);
                            assert forall|i: int| 0 <= i < r.len() implies #[trigger] r[i].bytes.len() > 0 by {
                                if i >= before.len() { assert(r[i] == rest[i - before.len()]); }
                            }
                        } else {
                            lemma_concat_emit(cur4, kind);
                            lemma_concat_append(before, emit(cur4, kind));
                            assert(concat_segments(before) + cur4 =~= current + code.subrange(ip, at));
                            assert forall|i: int| 0 <= i < r.len() implies #[trigger] r[i].bytes.len() > 0 by {
                                if i >= before.len() { assert(r[i] == emit(cur4, kind)[i - before.len()]); }
                            }
                        }
                    } else {
                        lemma_concat_emit(cur, kind);
                        lemma_concat_append(before, emit(cur, kind));
                        assert(concat_segments(before) + cur =~= current + code.subrange(ip, next));
                        assert forall|i: int| 0 <= i < r.len() implies #[trigger] r[i].bytes.len() > 0 by {
                            if i >= before.len() { assert(r[i] == emit(cur, kind)[i - before.len()]); }
                        }
                    }
                } else {
                    lemma_split_is_prefix(code, next, cur, kind);
                    let rest = split_from(code, next, cur, kind);
                    lemma_concat_append(before, rest);
                    let stop = choose|stop: int| next <= stop <= code.len()
                        && concat_segments(rest) == cur + #[trigger] code.subrange(next, stop);
                    assert(concat_segments(before) + cur + code.subrange(next, stop) =~= current + code.subrange(ip, stop));
                    assert(r == before + rest);
                    assert forall|i: int| 0 <= i < r.len() implies #[trigger] r[i].bytes.len() > 0 by {
                        if i >= before.len() { assert(r[i] == rest[i - before.len()]); }
                    }
                }
            },
        }
    }
}

/// The segments of a whole program, concatenated, are a prefix of it, and none is empty.
pub proof fn lemma_split_program(code: Seq<u8>)
    ensures
        exists|stop: int| 0 <= stop <= code.len() && concat_segments(split_from(code, 0, Seq::empty(), true)) == code.subrange(0, stop),
        forall|i: int| 0 <= i < split_from(code, 0, Seq::empty(), true).len()
            ==> #[trigger] split_from(code, 0, Seq::empty(), true)[i].bytes.len() > 0,
{
    lemma_split_is_prefix(code, 0, Seq::empty(), true);
    let stop = choose|stop: int| 0 <= stop <= code.len()
        && concat_segments(split_from(code, 0, Seq::empty(), true)) == Seq::<u8>::empty() + #[trigger] code.subrange(0, stop);
    assert(Seq::<u8>::empty() + code.subrange(0, stop) =~= code.subrange(0, stop));
}

/// Whether `b` is a run of instructions of one kind, read from its first byte:
/// foreign calls when `ffi`, any other instructions when not, each with its
/// operands (four bytes for a push; a four-byte length, that many name bytes
/// and an argument count for a foreign call); a byte that encodes no opcode
/// stands alone. Only the last instruction may be cut short.
pub open spec fn one_kind_run(b: Seq<u8>, ffi: bool) -> bool
    decreases b.len(),
{
    if b.len() == 0 {
        true
    } else {
        match OpCode::decode(b[0]) {
            None => one_kind_run(b.subrange(1, b.len() as int), ffi),
            Some(op) => if (op == OpCode::CallFfi) != ffi {
                false
            } else if op == OpCode::Push {
                if 5 <= b.len() { one_kind_run(b.subrange(5, b.len() as int), ffi) } else { true }
            } else if op == OpCode::CallFfi {
                if 5 <= b.len() && 5 + imm_u32(b, 1) < b.len() {
                    one_kind_run(b.subrange(5 + imm_u32(b, 1) + 1, b.len() as int), ffi)
                } else {
                    true
                }
            } else {
                one_kind_run(b.subrange(1, b.len() as int), ffi)
            },
        }
    }
}

/// Whether `b` is a run of whole instructions of one kind, as in
/// [`one_kind_run`] but with none cut short.
pub open spec fn whole_run(b: Seq<u8>, ffi: bool) -> bool
    decreases b.len(),
{
    if b.len() == 0 {
        true
    } else {
        match OpCode::decode(b[0]) {
            None => whole_run(b.subrange(1, b.len() as int), ffi),
            Some(op) => if (op == OpCode::CallFfi) != ffi {
                false
            } else if op == OpCode::Push {
                if 5 <= b.len() { whole_run(b.subrange(5, b.len() as int), ffi) } else { false }
            } else if op == OpCode::CallFfi {
                if 5 <= b.len() && 5 + imm_u32(b, 1) < b.len() {
                    whole_run(b.subrange(5 + imm_u32(b, 1) + 1, b.len() as int), ffi)
                } else {
                    false
                }
            } else {
                whole_run(b.subrange(1, b.len() as int), ffi)
            },
        }
    }
}

/// Whole instructions in front of a text change neither whether it is a run
/// nor whether it is a run of whole instructions.
proof fn lemma_run_concat(c: Seq<u8>, t: Seq<u8>, ffi: bool)
    requires
        whole_run(c, ffi),
    ensures
        one_kind_run(c + t, ffi) == one_kind_run(t, ffi),
        whole_run(c + t, ffi) == whole_run(t, ffi),
    decreases c.len(),
{
    let ct = c + t;
    if c.len() == 0 {
        assert(ct =~= t);
    } else {
        assert(ct[0] == c[0]);
        let k: int = match OpCode::decode(c[0]) {
            None => 1,
            Some(op) => if op == OpCode::Push { 5 } else if op == OpCode::CallFfi { 5 + imm_u32(c, 1) + 1 } else { 1 },
        };
        if OpCode::decode(c[0]) == Some(OpCode::CallFfi) {
            assert(ct[1] == c[1] && ct[2] == c[2] && ct[3] == c[3] && ct[4] == c[4]);
            assert(imm_u32(ct, 1) == imm_u32(c, 1));
        }
        assert(ct.subrange(k, ct.len() as int) =~= c.subrange(k, c.len() as int) + t);
        lemma_run_concat(c.subrange(k, c.len() as int), t, ffi);
    }
}

/// The segments all run instructions of their kind.
pub open spec fn runs_of_their_kind(r: Seq<SegmentView>) -> bool {
    forall|i: int| 0 <= i < r.len() ==> one_kind_run((#[trigger] r[i]).bytes, r[i].ffi)
}

/// Neighbouring segments are of different kinds.
pub open spec fn alternating(r: Seq<SegmentView>) -> bool {
    forall|i: int, j: int| 0 <= i && j == i + 1 && j < r.len() ==> (#[trigger] r[i]).ffi != (#[trigger] r[j]).ffi
}

proof fn lemma_join(x: Seq<u8>, ic: bool, rest: Seq<SegmentView>)
    requires
        x.len() > 0 ==> one_kind_run(x, !ic),
        runs_of_their_kind(rest),
        alternating(rest),
        x.len() > 0 && rest.len() > 0 ==> rest[0].ffi == ic,
    ensures
        runs_of_their_kind(emit(x, ic) + rest),
        alternating(emit(x, ic) + rest),
        x.len() > 0 ==> (emit(x, ic) + rest).len() > 0 && (emit(x, ic) + rest)[0].ffi == !ic,
        x.len() == 0 ==> emit(x, ic) + rest == rest,
{
    let e = emit(x, ic);
    let r = e + rest;
    if x.len() == 0 {
        assert(r =~= rest);
    } else {
        assert forall|i: int| 0 <= i < r.len() implies one_kind_run((#[trigger] r[i]).bytes, r[i].ffi) by {
            if i >= 1 { assert(r[i] == rest[i - 1]); }
        }
        assert forall|i: int, j: int| 0 <= i && j == i + 1 && j < r.len() implies (#[trigger] r[i]).ffi != (#[trigger] r[j]).ffi by {
            assert(r[j] == rest[j - 1]);
            if i >= 1 { assert(r[i] == rest[i - 1]); }
        }
    }
}

/// Splitting from `ip`, with `current` whole instructions of the running kind:
/// every segment runs instructions of its own kind, neighbours differ in kind,
/// and the first segment is of the running kind when `current` holds anything.
#[verifier::rlimit(80)]
#[verifier::spinoff_prover]
proof fn lemma_split_runs(code: Seq<u8>, ip: int, current: Seq<u8>, in_compute: bool)
    requires
        0 <= ip <= code.len(),
        whole_run(current, !in_compute),
    ensures
        runs_of_their_kind(split_from(code, ip, current, in_compute)),
        alternating(split_from(code, ip, current, in_compute)),
        current.len() > 0 ==> split_from(code, ip, current, in_compute).len() > 0
            && split_from(code, ip, current, in_compute)[0].ffi == !in_compute,
    decreases code.len() - ip,
{
    let r = split_from(code, ip, current, in_compute);
    if ip >= code.len() {
        lemma_run_concat(current, Seq::empty(), !in_compute);
        assert(current + Seq::<u8>::empty() =~= current);
        lemma_join(current, in_compute, Seq::empty());
        assert(emit(current, in_compute) + Seq::<SegmentView>::empty() =~= emit(current, in_compute));
    } else {
        match OpCode::decode(code[ip]) {
            None => {
                let u = seq![code[ip]];
                assert(whole_run(u.subrange(1, 1), !in_compute));
                assert(whole_run(u, !in_compute));
                lemma_run_concat(current, u, !in_compute);
                assert(current.push(code[ip]) =~= current + u);
                lemma_split_runs(code, ip + 1, current.push(code[ip]), in_compute);
            },
            Some(op) => {
                let is_ffi = op == OpCode::CallFfi;
                let switch = (is_ffi && in_compute) || (!is_ffi && !in_compute);
                let kind = if switch { !in_compute } else { in_compute };
                let base = if switch { Seq::<u8>::empty() } else { current };
                let cur = if switch { seq![code[ip]] } else { current.push(code[ip]) };
                let next = ip + 1;
                assert(cur =~= base + seq![code[ip]]);
                assert(is_ffi == !kind);
                assert(whole_run(base, !kind));
                lemma_run_concat(current, Seq::empty(), !in_compute);
                assert(current + Seq::<u8>::empty() =~= current);
                let tail: Seq<SegmentView>;
                if op == OpCode::Push {
                    if next + 4 <= code.len() {
                        let u = seq![code[ip]] + code.subrange(next, next + 4);
                        assert(u.subrange(5, 5) =~= Seq::<u8>::empty());
                        assert(u[0] == code[ip]);
                        assert(whole_run(u, !kind));
                        lemma_run_concat(base, u, !kind);
                        let cur2 = cur + code.subrange(next, next + 4);
                        assert(cur2 =~= base + u);
                        lemma_split_runs(code, next + 4, cur2, kind);
                        tail = split_from(code, next + 4, cur2, kind);
                    } else {
                        let u = seq![code[ip]];
                        assert(one_kind_run(u, !kind));
                        lemma_run_concat(base, u, !kind);
                        lemma_join(cur, kind, Seq::empty());
                        assert(emit(cur, kind) + Seq::<SegmentView>::empty() =~= emit(cur, kind));
                        tail = emit(cur, kind);
                    }
                } else if op == OpCode::CallFfi {
                    if next + 4 <= code.len() {
                        let n = imm_u32(code, next);
                        let at = next + 4;
                        let cur4 = cur + code.subrange(next, at);
                        if at + n < code.len() {
                            let u = seq![code[ip]] + code.subrange(next, at) + code.subrange(at, at + n + 1);
                            assert(u.len() == 5 + n + 1);
                            assert(u[0] == code[ip]);
                            assert(u[1] == code[next] && u[2] == code[next + 1] && u[3] == code[next + 2] && u[4] == code[next + 3]);
                            assert(imm_u32(u, 1) == n);
                            assert(u.subrange(5 + n + 1, u.len() as int) =~= Seq::<u8>::empty());
                            assert(whole_run(u, !kind));
                            lemma_run_concat(base, u, !kind);
                            let cur5 = cur4 + code.subrange(at, at + n + 1);
                            assert(cur5 =~= base + u);
                            lemma_split_runs(code, at + n + 1, cur5, kind);
                            tail = split_from(code, at + n + 1, cur5, kind);
                        } else {
                            let u = seq![code[ip]] + code.subrange(next, at);
                            assert(u.len() == 5);
                            assert(u[0] == code[ip]);
                            assert(u[1] == code[next] && u[2] == code[next + 1] && u[3] == code[next + 2] && u[4] == code[next + 3]);
                            assert(imm_u32(u, 1) == n);
                            assert(one_kind_run(u, !kind));
                            lemma_run_concat(base, u, !kind);
                            assert(cur4 =~= base + u);
                            lemma_join(cur4, kind, Seq::empty());
                            assert(emit(cur4, kind) + Seq::<SegmentView>::empty() =~= emit(cur4, kind));
                            tail = emit(cur4, kind);
                        }
                    } else {
                        let u = seq![code[ip]];
                        assert(one_kind_run(u, !kind));
                        lemma_run_concat(base, u, !kind);
                        lemma_join(cur, kind, Seq::empty());
                        assert(emit(cur, kind) + Seq::<SegmentView>::empty() =~= emit(cur, kind));
                        tail = emit(cur, kind);
                    }
                } else {
                    let u = seq![code[ip]];
                    assert(u.subrange(1, 1) =~= Seq::<u8>::empty());
                    assert(whole_run(u, !kind));
                    lemma_run_concat(base, u, !kind);
                    lemma_split_runs(code, next, cur, kind);
                    tail = split_from(code, next, cur, kind);
                }
                assert(tail.len() > 0 && tail[0].ffi == !kind);
                if switch {
                    lemma_join(current, in_compute, tail);
                    assert(r == emit(current, in_compute) + tail);
                } else {
                    assert(emit(Seq::<u8>::empty(), in_compute) =~= Seq::<SegmentView>::empty());
                    assert(r =~= tail);
                }
            },
        }
    }
}

/// The segments of a program run instructions of their own kind: a
/// foreign-call segment holds only foreign calls (with their operands) and
/// bytes that encode no opcode, a computational one no foreign call; and
/// neighbouring segments differ in kind, so an instruction other than a
/// foreign call that follows one starts a computational segment.
pub proof fn lemma_segments_of_one_kind(code: Seq<u8>)
    ensures
        runs_of_their_kind(split_from(code, 0, Seq::empty(), true)),
        alternating(split_from(code, 0, Seq::empty(), true)),
{
    assert(whole_run(Seq::<u8>::empty(), false));
    lemma_split_runs(code, 0, Seq::empty(), true);
}

/// The views of segments.
pub open spec fn segments_view(s: Seq<BytecodeSegment>) -> Seq<SegmentView> {
    s.map_values(|x: BytecodeSegment| x@)
}

fn push_segment(segments: &mut Vec<BytecodeSegment>, current: Vec<u8>, in_compute: bool)
    ensures
        segments_view(final(segments)@) == segments_view(old(segments)@) + emit(current@, in_compute),
{
    let ghost before = segments@;
    if current.len() > 0 {
        if in_compute {
            segments.push(BytecodeSegment::Computational(current));
        } else {
            segments.push(BytecodeSegment::Ffi(current));
        }
        assert(segments_view(segments@) =~= segments_view(before) + emit(current@, in_compute));
    } else {
        assert(segments_view(segments@) =~= segments_view(before) + emit(current@, in_compute));
    }
}

fn extend_from(current: &mut Vec<u8>, code: &[u8], from: usize, to: usize)
    requires
        from <= to <= code.len(),
    ensures
        final(current)@ == old(current)@ + code@.subrange(from as int, to as int),
{
    let ghost start = current@;
    let mut i = from;
    while i < to
        invariant
            from <= i <= to,
            to <= code.len(),
            current@ == start + code@.subrange(from as int, i as int),
        decreases to - i,
    {
        current.push(code[i]);
        i = i + 1;
        assert(code@.subrange(from as int, i as int) =~= code@.subrange(from as int, (i - 1) as int).push(code@[i - 1]));
    }
}

/// Splits bytecode into alternating computational and foreign-call segments for
/// hybrid execution, as [`split_from`] describes from the start of the code.
pub fn split_bytecode_for_hybrid(bytecode: &[u8]) -> (segments: Vec<BytecodeSegment>)
    ensures
        segments_view(segments@) == split_from(bytecode@, 0, Seq::empty(), true),
{
    let mut segments: Vec<BytecodeSegment> = Vec::new();
    let mut current: Vec<u8> = Vec::new();
    let mut in_compute = true;
    let mut ip: usize = 0;
    let ghost goal = split_from(bytecode@, 0, Seq::empty(), true);
    assert(segments_view(segments@) =~= Seq::<SegmentView>::empty());
    assert(goal =~= segments_view(segments@) + split_from(bytecode@, 0, current@, in_compute));
    while ip < bytecode.len()
        invariant
            ip <= bytecode.len(),
            goal == split_from(bytecode@, 0, Seq::empty(), true),
            goal == segments_view(segments@) + split_from(bytecode@, ip as int, current@, in_compute),
        decreases bytecode.len() - ip,
    {
        let ghost segs0 = segments_view(segments@);
        let ghost cur0 = current@;
        let ghost ic0 = in_compute;
        let ghost ip0 = ip as int;
        let b = bytecode[ip];
        match OpCode::from_byte(b) {
            Some(op) => {
                let is_ffi = match op { OpCode::CallFfi => true, _ => false };
                if (is_ffi && in_compute) || (!is_ffi && !in_compute) {
                    let taken = current;
                    current = Vec::new();
                    push_segment(&mut segments, taken, in_compute);
                    in_compute = !in_compute;
                }
                current.push(b);
                ip = ip + 1;
                proof {
                    let switch = (is_ffi && ic0) || (!is_ffi && !ic0);
                    let before = if switch { emit(cur0, ic0) } else { Seq::<SegmentView>::empty() };
                    assert(segments_view(segments@) =~= segs0 + before);
                    assert(current@ == (if switch { seq![b] } else { cur0.push(b) }));
                }
                match op {
                    OpCode::Push => {
                        if bytecode.len() - ip >= 4 {
                            extend_from(&mut current, bytecode, ip, ip + 4);
                            ip = ip + 4;
                            proof {
                                assert(goal =~= segments_view(segments@) + split_from(bytecode@, ip as int, current@, in_compute));
                            }
                        } else {
                            let taken = current;
                            current = Vec::new();
                            push_segment(&mut segments, taken, in_compute);
                            proof { assert(goal =~= segments_view(segments@)); }
                            return segments;
                        }
                    },
                    OpCode::CallFfi => {
                        if bytecode.len() - ip >= 4 {
                            let name_len = read_u32_le(bytecode, ip);
                            extend_from(&mut current, bytecode, ip, ip + 4);
                            ip = ip + 4;
                            if name_len < (bytecode.len() - ip) as u64 {
                                let stop = ip + name_len as usize + 1;
                                extend_from(&mut current, bytecode, ip, stop);
                                ip = stop;
                                proof {
                                    assert(goal =~= segments_view(segments@) + split_from(bytecode@, ip as int, current@, in_compute));
                                }
                            } else {
                                let taken = current;
                                current = Vec::new();
                                push_segment(&mut segments, taken, in_compute);
                                proof { assert(goal =~= segments_view(segments@)); }
                                return segments;
                            }
                        } else {
                            let taken = current;
                            current = Vec::new();
                            push_segment(&mut segments, taken, in_compute);
                            proof { assert(goal =~= segments_view(segments@)); }
                            return segments;
                        }
                    },
                    _ => {
                        proof {
                            assert(goal =~= segments_view(segments@) + split_from(bytecode@, ip as int, current@, in_compute));
                        }
                    },
                }
            },
            None => {
                current.push(b);
                ip = ip + 1;
            },
        }
    }
    let ghost segs1 = segments_view(segments@);
    push_segment(&mut segments, current, in_compute);
    proof { assert(goal =~= segments_view(segments@)); }
    segments
}

/// Whether a `CallFfi` opcode occurs, scanning from `ip`: a `Push` skips its
/// four operand bytes (the scan ends where they are cut short), every other byte
/// is looked at in turn.
pub open spec fn contains_ffi_from(code: Seq<u8>, ip: int) -> bool
    decreases code.len() - ip,
{
    if ip < 0 || ip >= code.len() {
        false
    } else {
        match OpCode::decode(code[ip]) {
            Some(OpCode::CallFfi) => true,
            Some(OpCode::Push) => if ip + 5 > code.len() { false } else { contains_ffi_from(code, ip + 5) },
            _ => contains_ffi_from(code, ip + 1),
        }
    }
}

/// Whether bytecode calls a foreign function, as [`contains_ffi_from`] scans it.
pub fn bytecode_contains_ffi(bytecode: &[u8]) -> (b: bool)
    ensures
        b == contains_ffi_from(bytecode@, 0),
{
    let mut ip: usize = 0;
    while ip < bytecode.len()
        invariant
            ip <= bytecode.len(),
            contains_ffi_from(bytecode@, ip as int) == contains_ffi_from(bytecode@, 0),
        decreases bytecode.len() - ip,
    {
        match OpCode::from_byte(bytecode[ip]) {
            Some(OpCode::CallFfi) => return true,
            Some(OpCode::Push) => {
                ip = ip + 1;
                if bytecode.len() - ip < 4 {
                    return false;
                }
                ip = ip + 4;
            },
            _ => {
                ip = ip + 1;
            },
        }
    }
    false
}

/// How the virtual machine runs a piece of bytecode.
#[derive(Debug, Clone, Copy, PartialEq, Eq, Structural)]
pub enum ExecutionPath {
    /// Computational segments compiled, foreign calls interpreted.
    HybridJitFfi,
    /// Interpreted, with foreign calls.
    InterpreterWithFfi,
    /// Compiled whole.
    Jit,
    /// Interpreted.
    Interpreter,
}

/// Whether compilation is on: asked for, and a compiler is at hand.
pub fn jit_enabled(requested: bool, has_compiler: bool) -> (b: bool)
    ensures
        b == (requested && has_compiler),
{
    requested && has_compiler
}

/// The path the machine takes for bytecode run `execution_count` times so far:
/// bytecode with foreign calls is split for hybrid running when compilation
/// is on and a compiler is at hand, and interpreted otherwise; other bytecode
/// is compiled once it has run at least `threshold` times with compilation on
/// and a compiler at hand, and interpreted otherwise.
pub fn execution_path(contains_ffi: bool, jit_on: bool, has_compiler: bool, execution_count: u64, threshold: u64)
    -> (p: ExecutionPath)
    ensures
        contains_ffi ==> p == (if jit_on && has_compiler { ExecutionPath::HybridJitFfi } else { ExecutionPath::InterpreterWithFfi }),
        !contains_ffi ==> p == (if jit_on && execution_count >= threshold && has_compiler {
            ExecutionPath::Jit
        } else {
            ExecutionPath::Interpreter
        }),
{
    if contains_ffi {
        if jit_on && has_compiler { ExecutionPath::HybridJitFfi } else { ExecutionPath::InterpreterWithFfi }
    } else if jit_on && execution_count >= threshold && has_compiler {
        ExecutionPath::Jit
    } else {
        ExecutionPath::Interpreter
    }
}

/// The integer a value hands to compiled code: integers as they are, booleans as 1 or 0, anything else 0.
pub open spec fn as_machine_integer(v: ValueView) -> i64 {
    match v {
        ValueView::Integer(i) => i,
        ValueView::Boolean(b) => if b { 1 } else { 0 },
        _ => 0,
    }
}

/// The integers the values hand to compiled code, in order.
pub fn extract_stack_values(stack: &[Value]) -> (r: Vec<i64>)
    ensures
        r@ == values_view(stack@).map_values(|v: ValueView| as_machine_integer(v)),
{
    let mut r: Vec<i64> = Vec::new();
    let mut i: usize = 0;
    while i < stack.len()
        invariant
            0 <= i <= stack.len(),
            r@ == values_view(stack@).take(i as int).map_values(|v: ValueView| as_machine_integer(v)),
        decreases stack.len() - i,
    {
        let x = match &stack[i] {
            Value::Integer(n) => *n,
            Value::Boolean(b) => if *b { 1 } else { 0 },
            _ => 0,
        };
        r.push(x);
        i = i + 1;
        assert(values_view(stack@).take(i as int).map_values(|v: ValueView| as_machine_integer(v))
            =~= values_view(stack@).take((i - 1) as int).map_values(|v: ValueView| as_machine_integer(v)).push(x));
    }
    assert(values_view(stack@).take(stack.len() as int) =~= values_view(stack@));
    r
}

/// The value an integer result of compiled code becomes: 0 and 1 become booleans, anything else stays an integer.
pub open spec fn from_machine_integer(v: i64) -> ValueView {
    if v == 0 || v == 1 { ValueView::Boolean(v == 1) } else { ValueView::Integer(v) }
}

/// Replaces the interpreter's stack with the values of compiled code's results.
pub fn update_interpreter_stack(interpreter: &mut Interpreter, values: &[i64])
    ensures
        final(interpreter).stack_view() == values@.map_values(|v: i64| from_machine_integer(v)),
        final(interpreter).gas_left() == old(interpreter).gas_left(),
        final(interpreter).variable_table() == old(interpreter).variable_table(),
{
    interpreter.clear_stack();
    let mut i: usize = 0;
    while i < values.len()
        invariant
            0 <= i <= values.len(),
            interpreter.stack_view() == values@.take(i as int).map_values(|v: i64| from_machine_integer(v)),
            interpreter.gas_left() == old(interpreter).gas_left(),
            interpreter.variable_table() == old(interpreter).variable_table(),
        decreases values.len() - i,
    {
        let v = values[i];
        if v == 0 || v == 1 {
            interpreter.push_value(Value::Boolean(v == 1));
        } else {
            interpreter.push_value(Value::Integer(v));
        }
        i = i + 1;
        assert(values@.take(i as int).map_values(|v: i64| from_machine_integer(v))
            =~= values@.take((i - 1) as int).map_values(|v: i64| from_machine_integer(v)).push(from_machine_integer(v)));
    }
    assert(values@.take(values.len() as int) =~= values@);
}

} // verus!
