use vstd::prelude::*;
use crate::runtime::arith::saturate_i64;
use crate::runtime::opcode::{error_message, invalid_opcode_text, ErrorView, OpCode};
use crate::runtime::semantics::{imm_i32, imm_u32};
use crate::runtime::value::{ValueView};
use crate::text::decimal_int;

verus! {

/// The text `String::from_utf8_lossy` makes of `bytes`.
pub uninterp spec fn utf8_lossy(bytes: Seq<u8>) -> Seq<char>;

/// A request the machine makes of the foreign-function table: a name and its arguments.
pub struct FfiCall {
    pub name: Seq<char>,
    pub args: Seq<ValueView>,
}

/// What the foreign-function table answers to a request.
pub enum FfiReply {
    /// No function of that name is registered.
    Missing,
    /// The function returned a value.
    Returned(ValueView),
    /// The function reported an error.
    Raised(ErrorView),
}

/// The reply to use next: the first of `replies`, or `Missing` when none is left.
pub open spec fn next_reply(replies: Seq<FfiReply>) -> FfiReply {
    if replies.len() > 0 { replies[0] } else { FfiReply::Missing }
}

/// How a run in foreign-call mode ends; `calls` are the requests it made, in order.
pub enum FfiOutcome {
    Done { stack: Seq<ValueView>, gas: nat, calls: Seq<FfiCall> },
    Failed { stack: Seq<ValueView>, gas: nat, error: ErrorView, calls: Seq<FfiCall> },
    Trapped,
}

/// `o` with `calls` made before it.
pub open spec fn after_calls(calls: Seq<FfiCall>, o: FfiOutcome) -> FfiOutcome {
    match o {
        FfiOutcome::Done { stack, gas, calls: c } => FfiOutcome::Done { stack, gas, calls: calls + c },
        FfiOutcome::Failed { stack, gas, error, calls: c } => FfiOutcome::Failed { stack, gas, error, calls: calls + c },
        FfiOutcome::Trapped => FfiOutcome::Trapped,
    }
}

/// The effect of one instruction other than `CallFfi` in foreign-call mode.
pub enum PlainStep {
    Next { stack: Seq<ValueView>, ip: int },
    Stop { stack: Seq<ValueView> },
    Fail { stack: Seq<ValueView>, error: ErrorView },
}

/// What `Add`, `Subtract` or `Multiply` compute in foreign-call mode.
pub open spec fn ffi_arith(op: OpCode, a: ValueView, b: ValueView) -> Result<ValueView, ErrorView> {
    match op {
        OpCode::Add => match (a, b) {
            (ValueView::Integer(x), ValueView::Integer(y)) => Ok(ValueView::Integer(saturate_i64(x + y) as i64)),
            (ValueView::Text(x), ValueView::Text(y)) => Ok(ValueView::Text(x + y)),
            (ValueView::Text(x), ValueView::Integer(y)) => Ok(ValueView::Text(x + decimal_int(y as int))),
            (ValueView::Integer(x), ValueView::Text(y)) => Ok(ValueView::Text(decimal_int(x as int) + y)),
            _ => Err(ErrorView::TypeMismatch("integer or string"@, "incompatible types for addition"@)),
        },
        OpCode::Subtract => match (a, b) {
            (ValueView::Integer(x), ValueView::Integer(y)) => Ok(ValueView::Integer(saturate_i64(x - y) as i64)),
            _ => Err(ErrorView::TypeMismatch("integer"@, "incompatible types for subtraction"@)),
        },
        _ => match (a, b) {
            (ValueView::Integer(x), ValueView::Integer(y)) => Ok(ValueView::Integer(saturate_i64(x * y) as i64)),
            _ => Err(ErrorView::TypeMismatch("integer"@, "incompatible types for multiplication"@)),
        },
    }
}

/// The effect of an instruction other than `CallFfi` in foreign-call mode.
pub open spec fn plain_step(op: OpCode, stack: Seq<ValueView>, code: Seq<u8>, next: int) -> PlainStep {
    match op {
        OpCode::Push =>
            if next + 4 > code.len() {
                PlainStep::Fail { stack, error: ErrorView::InvalidBytecode("Incomplete push instruction"@) }
            } else {
                PlainStep::Next { stack: stack.push(ValueView::Integer(imm_i32(code, next) as i64)), ip: next + 4 }
            },
        OpCode::Dup =>
            if stack.len() == 0 {
                PlainStep::Fail { stack, error: ErrorView::StackUnderflow }
            } else {
                PlainStep::Next { stack: stack.push(stack.last()), ip: next }
            },
        OpCode::Pop =>
            if stack.len() == 0 {
                PlainStep::Fail { stack, error: ErrorView::StackUnderflow }
            } else {
                PlainStep::Next { stack: stack.drop_last(), ip: next }
            },
        OpCode::Halt => PlainStep::Stop { stack },
        OpCode::Add | OpCode::Subtract | OpCode::Multiply =>
            if stack.len() < 2 {
                PlainStep::Fail { stack, error: ErrorView::StackUnderflow }
            } else {
                let rest = stack.take(stack.len() - 2);
                match ffi_arith(op, stack[stack.len() - 2], stack[stack.len() - 1]) {
                    Ok(v) => PlainStep::Next { stack: rest.push(v), ip: next },
                    Err(e) => PlainStep::Fail { stack: rest, error: e },
                }
            },
        _ => PlainStep::Fail { stack, error: ErrorView::UnsupportedOpcode(op.name()) },
    }
}

/// The effect of a `CallFfi` whose operands start at `next`.
pub enum CallStep {
    /// The operands are malformed or the stack is short; no request is made.
    Malformed { stack: Seq<ValueView>, error: ErrorView },
    /// A request is made; the machine continues at `resume` with `rest` plus the reply.
    Request { rest: Seq<ValueView>, call: FfiCall, resume: int },
}

/// Decodes a `CallFfi`'s operands: a 32-bit little-endian name length, the name,
/// then one byte giving the number of arguments, which are popped from the stack.
pub open spec fn call_step(stack: Seq<ValueView>, code: Seq<u8>, next: int) -> CallStep {
    if next + 4 > code.len() {
        CallStep::Malformed { stack, error: ErrorView::InvalidBytecode("Incomplete FFI function name length"@) }
    } else {
        let name_len = imm_u32(code, next);
        let at = next + 4;
        if at + name_len > code.len() {
            CallStep::Malformed { stack, error: ErrorView::InvalidBytecode("Incomplete FFI function name"@) }
        } else if at + name_len >= code.len() {
            CallStep::Malformed { stack, error: ErrorView::InvalidBytecode("Missing FFI argument count"@) }
        } else {
            let count = code[at + name_len] as int;
            if stack.len() < count {
                CallStep::Malformed { stack: Seq::empty(), error: ErrorView::StackUnderflow }
            } else {
                CallStep::Request {
                    rest: stack.take(stack.len() - count),
                    call: FfiCall {
                        name: utf8_lossy(code.subrange(at, at + name_len)),
                        args: stack.skip(stack.len() - count),
                    },
                    resume: at + name_len + 1,
                }
            }
        }
    }
}

/// The error reported for a failed or missing foreign function.
pub open spec fn reply_error(name: Seq<char>, reply: FfiReply) -> ErrorView {
    match reply {
        FfiReply::Raised(e) => ErrorView::RuntimeError("FFI function '"@ + name + "' failed: "@ + error_message(e)),
        _ => ErrorView::RuntimeError("FFI function '"@ + name + "' not found"@),
    }
}

/// Runs `code` from `ip` in foreign-call mode, answering requests from `replies` in order.
///
/// A `CallFfi` costs one unit of gas. Every other instruction costs two units
/// when it completes, none when it stops the run (an error or a `Halt`), and
/// panics when it completes with a single unit left.
pub open spec fn run_ffi(stack: Seq<ValueView>, gas: nat, code: Seq<u8>, ip: int, replies: Seq<FfiReply>) -> FfiOutcome
    decreases gas,
{
    if ip < 0 || ip >= code.len() {
        FfiOutcome::Done { stack, gas, calls: Seq::empty() }
    } else if gas == 0 {
        FfiOutcome::Failed { stack, gas: 0, error: ErrorView::OutOfGas, calls: Seq::empty() }
    } else {
        match OpCode::decode(code[ip]) {
            None => FfiOutcome::Failed {
                stack,
                gas: (gas - 1) as nat,
                error: ErrorView::InvalidBytecode(invalid_opcode_text(code[ip])),
                calls: Seq::empty(),
            },
            Some(OpCode::CallFfi) => match call_step(stack, code, ip + 1) {
                CallStep::Malformed { stack: s, error } =>
                    FfiOutcome::Failed { stack: s, gas: (gas - 1) as nat, error, calls: Seq::empty() },
                CallStep::Request { rest, call, resume } => match next_reply(replies) {
                    FfiReply::Returned(v) => after_calls(
                        seq![call],
                        run_ffi(rest.push(v), (gas - 1) as nat, code, resume, replies.drop_first()),
                    ),
                    other => FfiOutcome::Failed {
                        stack: rest,
                        gas: (gas - 1) as nat,
                        error: reply_error(call.name, other),
                        calls: seq![call],
                    },
                },
            },
            Some(op) => match plain_step(op, stack, code, ip + 1) {
                PlainStep::Next { stack: s, ip: next } =>
                    if gas == 1 {
                        FfiOutcome::Trapped
                    } else {
                        run_ffi(s, (gas - 2) as nat, code, next, replies)
                    },
                PlainStep::Stop { stack: s } => FfiOutcome::Done { stack: s, gas, calls: Seq::empty() },
                PlainStep::Fail { stack: s, error } => FfiOutcome::Failed { stack: s, gas, error, calls: Seq::empty() },
            },
        }
    }
}

/// The requests a run makes.
pub open spec fn outcome_calls(o: FfiOutcome) -> Seq<FfiCall> {
    match o {
        FfiOutcome::Done { calls, .. } => calls,
        FfiOutcome::Failed { calls, .. } => calls,
        FfiOutcome::Trapped => Seq::empty(),
    }
}

/// Prefixing calls twice is prefixing their concatenation.
pub proof fn lemma_after_calls_assoc(a: Seq<FfiCall>, b: Seq<FfiCall>, o: FfiOutcome)
    ensures
        after_calls(a, after_calls(b, o)) == after_calls(a + b, o),
{
    match o {
        FfiOutcome::Done { calls, .. } => { assert(a + (b + calls) =~= (a + b) + calls); },
        FfiOutcome::Failed { calls, .. } => { assert(a + (b + calls) =~= (a + b) + calls); },
        FfiOutcome::Trapped => {},
    }
}

/// Prefixing no calls changes nothing.
pub proof fn lemma_after_no_calls(o: FfiOutcome)
    ensures
        after_calls(Seq::empty(), o) == o,
{
    match o {
        FfiOutcome::Done { calls, .. } => { assert(Seq::<FfiCall>::empty() + calls =~= calls); },
        FfiOutcome::Failed { calls, .. } => { assert(Seq::<FfiCall>::empty() + calls =~= calls); },
        FfiOutcome::Trapped => {},
    }
}

/// Code without a `CallFfi` byte makes no foreign requests, whatever the replies.
pub proof fn lemma_run_ffi_no_calls_without_callffi(stack: Seq<ValueView>, gas: nat, code: Seq<u8>, replies: Seq<FfiReply>)
    requires
        forall|i: int| 0 <= i < code.len() ==> code[i] != 27,
    ensures
        outcome_calls(run_ffi(stack, gas, code, 0, replies)).len() == 0,
{
    lemma_no_calls_from(stack, gas, code, 0, replies);
}

proof fn lemma_no_calls_from(stack: Seq<ValueView>, gas: nat, code: Seq<u8>, ip: int, replies: Seq<FfiReply>)
    requires
        forall|i: int| 0 <= i < code.len() ==> code[i] != 27,
    ensures
        outcome_calls(run_ffi(stack, gas, code, ip, replies)).len() == 0,
    decreases gas,
{
    if 0 <= ip < code.len() && gas > 0 {
        match OpCode::decode(code[ip]) {
            Some(op) => {
                if op != OpCode::CallFfi {
                    match plain_step(op, stack, code, ip + 1) {
                        PlainStep::Next { stack: s, ip: next } => {
                            if gas > 1 {
                                lemma_no_calls_from(s, (gas - 2) as nat, code, next, replies);
                            }
                        },
                        _ => {},
                    }
                }
            },
            None => {},
        }
    }
}

} // verus!
