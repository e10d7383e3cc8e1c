use vstd::prelude::*;
use crate::runtime::arith::{saturate_i64, trunc_div, trunc_rem};
use crate::runtime::opcode::{invalid_opcode_text, ErrorView, OpCode};
use crate::runtime::value::{display, truthy, value_eq, ValueView};

verus! {

/// The signed 32-bit little-endian immediate stored at `code[at..at + 4]`.
pub open spec fn imm_i32(code: Seq<u8>, at: int) -> int {
    let u = code[at] as int + code[at + 1] as int * 0x100 + code[at + 2] as int * 0x1_0000
        + code[at + 3] as int * 0x100_0000;
    if u >= 0x8000_0000 { u - 0x1_0000_0000 } else { u }
}

/// The unsigned 32-bit little-endian number stored at `code[at..at + 4]`.
pub open spec fn imm_u32(code: Seq<u8>, at: int) -> int {
    code[at] as int + code[at + 1] as int * 0x100 + code[at + 2] as int * 0x1_0000
        + code[at + 3] as int * 0x100_0000
}

/// What an operator that takes two operands produces from them.
pub enum Binary {
    Value(ValueView),
    Error(ErrorView),
    /// The operation panics (integer overflow in a division or remainder).
    Trap,
}

/// The operators that pop two operands.
pub open spec fn is_binary(op: OpCode) -> bool {
    match op {
        OpCode::Add | OpCode::Subtract | OpCode::Multiply | OpCode::Divide | OpCode::Modulo
        | OpCode::Equal | OpCode::NotEqual | OpCode::GreaterThan | OpCode::LessThan
        | OpCode::GreaterEqual | OpCode::LessEqual | OpCode::And | OpCode::Or => true,
        _ => false,
    }
}

/// The result of a comparison of two integers, or the error for other operands.
pub open spec fn compare(a: ValueView, b: ValueView, f: spec_fn(i64, i64) -> bool) -> Binary {
    match (a, b) {
        (ValueView::Integer(x), ValueView::Integer(y)) => Binary::Value(ValueView::Boolean(f(x, y))),
        _ => Binary::Error(ErrorView::InvalidOperation("Cannot compare non-integer values"@)),
    }
}

/// What a two-operand operator computes from `a` (pushed first) and `b` (pushed last).
pub open spec fn apply_binary(op: OpCode, a: ValueView, b: ValueView) -> Binary {
    match op {
        OpCode::Add => match (a, b) {
            (ValueView::Integer(x), ValueView::Integer(y)) =>
                Binary::Value(ValueView::Integer(saturate_i64(x + y) as i64)),
            (ValueView::Text(x), ValueView::Text(y)) => Binary::Value(ValueView::Text(x + y)),
            (ValueView::Text(x), _) => Binary::Value(ValueView::Text(x + display(b))),
            (_, ValueView::Text(y)) => Binary::Value(ValueView::Text(display(a) + y)),
            _ => Binary::Error(ErrorView::InvalidOperation("Cannot add these value types"@)),
        },
        OpCode::Subtract => match (a, b) {
            (ValueView::Integer(x), ValueView::Integer(y)) =>
                Binary::Value(ValueView::Integer(saturate_i64(x - y) as i64)),
            _ => Binary::Error(ErrorView::InvalidOperation("Cannot subtract non-integer values"@)),
        },
        OpCode::Multiply => match (a, b) {
            (ValueView::Integer(x), ValueView::Integer(y)) =>
                Binary::Value(ValueView::Integer(saturate_i64(x * y) as i64)),
            _ => Binary::Error(ErrorView::InvalidOperation("Cannot multiply non-integer values"@)),
        },
        OpCode::Divide => match (a, b) {
            (ValueView::Integer(x), ValueView::Integer(y)) =>
                if y == 0 {
                    Binary::Error(ErrorView::DivisionByZero)
                } else if x == i64::MIN && y == -1 {
                    Binary::Trap
                } else {
                    Binary::Value(ValueView::Integer(trunc_div(x as int, y as int) as i64))
                },
            _ => Binary::Error(ErrorView::InvalidOperation("Cannot divide non-integer values"@)),
        },
        OpCode::Modulo => match (a, b) {
            (ValueView::Integer(x), ValueView::Integer(y)) =>
                if y == 0 {
                    Binary::Error(ErrorView::DivisionByZero)
                } else if x == i64::MIN && y == -1 {
                    Binary::Trap
                } else {
                    Binary::Value(ValueView::Integer(trunc_rem(x as int, y as int) as i64))
                },
            _ => Binary::Error(ErrorView::InvalidOperation("Cannot modulo non-integer values"@)),
        },
        OpCode::Equal => Binary::Value(ValueView::Boolean(value_eq(a, b))),
        OpCode::NotEqual => Binary::Value(ValueView::Boolean(!value_eq(a, b))),
        OpCode::GreaterThan => compare(a, b, |x: i64, y: i64| x > y),
        OpCode::LessThan => compare(a, b, |x: i64, y: i64| x < y),
        OpCode::GreaterEqual => compare(a, b, |x: i64, y: i64| x >= y),
        OpCode::LessEqual => compare(a, b, |x: i64, y: i64| x <= y),
        OpCode::And => Binary::Value(ValueView::Boolean(truthy(a) && truthy(b))),
        OpCode::Or => Binary::Value(ValueView::Boolean(truthy(a) || truthy(b))),
        _ => Binary::Trap,
    }
}

/// Over integers the comparisons follow the integers' order: `GreaterEqual`
/// gives true exactly when the first operand is at least the second,
/// `GreaterThan` when it is more, `LessThan` when it is less and `LessEqual`
/// when it is at most the second. `GreaterEqual` is the negation of
/// `LessThan`, `LessEqual` that of `GreaterThan`, and equal integers are
/// `GreaterEqual` and `LessEqual` but neither `GreaterThan` nor `LessThan`.
pub proof fn lemma_integer_comparisons(x: i64, y: i64)
    ensures
        apply_binary(OpCode::GreaterEqual, ValueView::Integer(x), ValueView::Integer(y))
            == Binary::Value(ValueView::Boolean(x >= y)),
        apply_binary(OpCode::GreaterThan, ValueView::Integer(x), ValueView::Integer(y))
            == Binary::Value(ValueView::Boolean(x > y)),
        apply_binary(OpCode::LessThan, ValueView::Integer(x), ValueView::Integer(y))
            == Binary::Value(ValueView::Boolean(x < y)),
        apply_binary(OpCode::LessEqual, ValueView::Integer(x), ValueView::Integer(y))
            == Binary::Value(ValueView::Boolean(x <= y)),
        apply_binary(OpCode::GreaterEqual, ValueView::Integer(x), ValueView::Integer(y))
            matches Binary::Value(ValueView::Boolean(ge))
            && apply_binary(OpCode::LessThan, ValueView::Integer(x), ValueView::Integer(y))
            matches Binary::Value(ValueView::Boolean(lt))
            && ge == !lt,
        apply_binary(OpCode::LessEqual, ValueView::Integer(x), ValueView::Integer(y))
            matches Binary::Value(ValueView::Boolean(le))
            && apply_binary(OpCode::GreaterThan, ValueView::Integer(x), ValueView::Integer(y))
            matches Binary::Value(ValueView::Boolean(gt))
            && le == !gt,
        apply_binary(OpCode::GreaterEqual, ValueView::Integer(x), ValueView::Integer(x))
            == Binary::Value(ValueView::Boolean(true)),
        apply_binary(OpCode::LessEqual, ValueView::Integer(x), ValueView::Integer(x))
            == Binary::Value(ValueView::Boolean(true)),
        apply_binary(OpCode::GreaterThan, ValueView::Integer(x), ValueView::Integer(x))
            == Binary::Value(ValueView::Boolean(false)),
        apply_binary(OpCode::LessThan, ValueView::Integer(x), ValueView::Integer(x))
            == Binary::Value(ValueView::Boolean(false)),
{
}

/// `Equal` and `NotEqual` always give a boolean and one is the negation of the
/// other; two integers are `Equal` exactly when they are the same integer, and
/// every value is `Equal` to itself.
pub proof fn lemma_equality_operators(a: ValueView, b: ValueView, x: i64, y: i64)
    ensures
        apply_binary(OpCode::Equal, a, b) matches Binary::Value(ValueView::Boolean(eq))
            && apply_binary(OpCode::NotEqual, a, b) matches Binary::Value(ValueView::Boolean(ne))
            && eq == !ne,
        apply_binary(OpCode::Equal, ValueView::Integer(x), ValueView::Integer(y))
            == Binary::Value(ValueView::Boolean(x == y)),
        apply_binary(OpCode::Equal, a, a) == Binary::Value(ValueView::Boolean(true)),
        apply_binary(OpCode::Equal, a, b) == apply_binary(OpCode::Equal, b, a),
{
    crate::runtime::value::lemma_value_eq_reflexive_symmetric(a, b);
}

/// A comparison of the top two integers on the stack replaces them by the
/// comparison's truth: `GreaterEqual` by whether the lower one is at least the
/// upper one.
pub proof fn lemma_compare_on_stack(rest: Seq<ValueView>, x: i64, y: i64, next: int)
    ensures
        step_binary(OpCode::GreaterEqual, rest.push(ValueView::Integer(x)).push(ValueView::Integer(y)), next)
            == (Step::Next { stack: rest.push(ValueView::Boolean(x >= y)), ip: next }),
        step_binary(OpCode::LessThan, rest.push(ValueView::Integer(x)).push(ValueView::Integer(y)), next)
            == (Step::Next { stack: rest.push(ValueView::Boolean(x < y)), ip: next }),
{
    let s = rest.push(ValueView::Integer(x)).push(ValueView::Integer(y));
    assert(s.take(s.len() - 2) =~= rest);
}

/// One instruction's effect on the stack.
pub enum Step {
    /// Continue at `ip` with `stack`.
    Next { stack: Seq<ValueView>, ip: int },
    /// Stop normally (a `Halt`).
    Stop { stack: Seq<ValueView> },
    /// Stop with `error`, leaving `stack`.
    Fail { stack: Seq<ValueView>, error: ErrorView },
    /// The instruction panics.
    Trap,
}

/// The effect of a two-operand operator at `next` (the position after its opcode).
pub open spec fn step_binary(op: OpCode, stack: Seq<ValueView>, next: int) -> Step {
    if stack.len() == 0 {
        Step::Fail { stack, error: ErrorView::StackUnderflow }
    } else if stack.len() == 1 {
        Step::Fail { stack: stack.drop_last(), error: ErrorView::StackUnderflow }
    } else {
        let rest = stack.take(stack.len() - 2);
        match apply_binary(op, stack[stack.len() - 2], stack[stack.len() - 1]) {
            Binary::Value(v) => Step::Next { stack: rest.push(v), ip: next },
            Binary::Error(e) => Step::Fail { stack: rest, error: e },
            Binary::Trap => Step::Trap,
        }
    }
}

/// The effect of the instruction whose opcode `op` stands just before `next`.
pub open spec fn step_op(op: OpCode, stack: Seq<ValueView>, code: Seq<u8>, next: int) -> Step {
    if is_binary(op) {
        step_binary(op, stack, next)
    } else {
        match op {
            OpCode::Push =>
                if next + 4 > code.len() {
                    Step::Fail { stack, error: ErrorView::InvalidBytecode("Incomplete push instruction"@) }
                } else {
                    Step::Next { stack: stack.push(ValueView::Integer(imm_i32(code, next) as i64)), ip: next + 4 }
                },
            OpCode::Pop =>
                if stack.len() == 0 {
                    Step::Fail { stack, error: ErrorView::StackUnderflow }
                } else {
                    Step::Next { stack: stack.drop_last(), ip: next }
                },
            OpCode::Negate =>
                if stack.len() == 0 {
                    Step::Fail { stack, error: ErrorView::StackUnderflow }
                } else {
                    match stack.last() {
                        ValueView::Integer(x) =>
                            if x == i64::MIN {
                                Step::Trap
                            } else {
                                Step::Next { stack: stack.drop_last().push(ValueView::Integer((-x) as i64)), ip: next }
                            },
                        _ => Step::Fail {
                            stack: stack.drop_last(),
                            error: ErrorView::InvalidOperation("Cannot negate non-integer value"@),
                        },
                    }
                },
            OpCode::Not =>
                if stack.len() == 0 {
                    Step::Fail { stack, error: ErrorView::StackUnderflow }
                } else {
                    Step::Next { stack: stack.drop_last().push(ValueView::Boolean(!truthy(stack.last()))), ip: next }
                },
            OpCode::Dup =>
                if stack.len() == 0 {
                    Step::Fail { stack, error: ErrorView::StackUnderflow }
                } else {
                    Step::Next { stack: stack.push(stack.last()), ip: next }
                },
            OpCode::Swap =>
                if stack.len() < 2 {
                    Step::Fail { stack, error: ErrorView::StackUnderflow }
                } else {
                    Step::Next {
                        stack: stack.take(stack.len() - 2).push(stack[stack.len() - 1]).push(stack[stack.len() - 2]),
                        ip: next,
                    }
                },
            OpCode::Halt => Step::Stop { stack },
            _ => Step::Fail { stack, error: ErrorView::UnsupportedOpcode(op.name()) },
        }
    }
}

/// The effect of the instruction at `ip`, which lies inside `code`.
pub open spec fn step(stack: Seq<ValueView>, code: Seq<u8>, ip: int) -> Step {
    match OpCode::decode(code[ip]) {
        None => Step::Fail { stack, error: ErrorView::InvalidBytecode(invalid_opcode_text(code[ip])) },
        Some(op) => step_op(op, stack, code, ip + 1),
    }
}

/// How running bytecode ends.
pub enum Outcome {
    /// It ran off the end of the code or reached a `Halt`.
    Done { stack: Seq<ValueView>, gas: nat },
    /// It stopped with `error`.
    Failed { stack: Seq<ValueView>, gas: nat, error: ErrorView },
    /// An instruction panics.
    Trapped,
}

/// Runs `code` from `ip` with `stack` and `gas`: every instruction costs one
/// unit of gas, charged before it runs, and running with no gas left fails with
/// `OutOfGas`.
pub open spec fn run(stack: Seq<ValueView>, gas: nat, code: Seq<u8>, ip: int) -> Outcome
    decreases gas,
{
    if ip < 0 || ip >= code.len() {
        Outcome::Done { stack, gas }
    } else if gas == 0 {
        Outcome::Failed { stack, gas: 0, error: ErrorView::OutOfGas }
    } else {
        match step(stack, code, ip) {
            Step::Next { stack: s, ip: next } => run(s, (gas - 1) as nat, code, next),
            Step::Stop { stack: s } => Outcome::Done { stack: s, gas: (gas - 1) as nat },
            Step::Fail { stack: s, error } => Outcome::Failed { stack: s, gas: (gas - 1) as nat, error },
            Step::Trap => Outcome::Trapped,
        }
    }
}

/// The gas left when a run ends.
pub open spec fn outcome_gas(o: Outcome) -> nat {
    match o {
        Outcome::Done { gas, .. } => gas,
        Outcome::Failed { gas, .. } => gas,
        Outcome::Trapped => 0,
    }
}

/// Every instruction moves forward.
pub proof fn lemma_step_advances(stack: Seq<ValueView>, code: Seq<u8>, ip: int)
    requires
        0 <= ip < code.len(),
    ensures
        step(stack, code, ip) matches Step::Next { ip: next, .. } ==> ip < next <= code.len(),
{
}

/// A run never ends with more gas than it started with, and a run that does not
/// fail for want of gas has charged one unit per instruction it executed.
pub proof fn lemma_run_gas_bounded(stack: Seq<ValueView>, gas: nat, code: Seq<u8>, ip: int)
    ensures
        run(stack, gas, code, ip) !is Trapped ==> outcome_gas(run(stack, gas, code, ip)) <= gas,
    decreases gas,
{
    if 0 <= ip < code.len() && gas > 0 {
        match step(stack, code, ip) {
            Step::Next { stack: s, ip: next } => {
                lemma_run_gas_bounded(s, (gas - 1) as nat, code, next);
            },
            _ => {},
        }
    }
}

/// Running empty code changes nothing and costs nothing.
pub proof fn lemma_run_empty(stack: Seq<ValueView>, gas: nat)
    ensures
        run(stack, gas, Seq::empty(), 0) == (Outcome::Done { stack, gas }),
{
}

/// With no gas, any non-empty code fails at once with `OutOfGas`.
pub proof fn lemma_run_no_gas(stack: Seq<ValueView>, code: Seq<u8>)
    requires
        code.len() > 0,
    ensures
        run(stack, 0, code, 0) == (Outcome::Failed { stack, gas: 0, error: ErrorView::OutOfGas }),
{
}

} // verus!
