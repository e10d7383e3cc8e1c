use vstd::prelude::*;
use std::collections::HashMap;
use crate::runtime::arith::{div_rem_i64, saturating_add_i64, saturating_mul_i64, saturating_sub_i64};
use crate::runtime::opcode::{ErrorView, InterpreterError, OpCode};
use crate::runtime::semantics::{apply_binary, is_binary, run, step, step_binary, step_op, Binary, Outcome, Step};
use crate::runtime::ffi_semantics::{
    after_calls, call_step, ffi_arith, lemma_after_calls_assoc, lemma_after_no_calls, plain_step, reply_error,
    run_ffi, utf8_lossy, CallStep, FfiCall, FfiOutcome, FfiReply, PlainStep,
};
use crate::runtime::opcode::error_message;
use vstd::utf8::{decode_utf8, valid_utf8};
use crate::runtime::value::{values_view, Value, ValueView};
use crate::text::{chars_of, concat_str, push_decimal_i64, push_str_chars, string_from_chars, with_decimal_u64};

verus! {

/// The stack view after pushing a value.
pub proof fn lemma_view_push(s: Seq<Value>, v: Value)
    ensures
        values_view(s.push(v)) == values_view(s).push(v@),
{
    assert(values_view(s.push(v)) =~= values_view(s).push(v@));
}

/// The stack view after popping a value.
pub proof fn lemma_view_drop_last(s: Seq<Value>)
    requires
        s.len() > 0,
    ensures
        values_view(s.drop_last()) == values_view(s).drop_last(),
{
    assert(values_view(s.drop_last()) =~= values_view(s).drop_last());
}

/// How an instruction hands control back to the dispatch loop.
pub enum Flow {
    Next(usize),
    Stop,
    Fail(InterpreterError),
}

/// Whether `f`, with `stack` left on the machine, is what `st` describes.
pub open spec fn flow_matches(f: Flow, st: Step, stack: Seq<ValueView>) -> bool {
    match st {
        Step::Next { stack: s, ip } => f matches Flow::Next(n) && n == ip && stack == s,
        Step::Stop { stack: s } => f is Stop && stack == s,
        Step::Fail { stack: s, error } => f matches Flow::Fail(e) && e@ == error && stack == s,
        Step::Trap => false,
    }
}

/// What a two-operand operator computes from two values.
pub fn apply_binary_values(op: OpCode, a: Value, b: Value) -> (r: Result<Value, InterpreterError>)
    requires
        is_binary(op),
        apply_binary(op, a@, b@) !is Trap,
    ensures
        match apply_binary(op, a@, b@) {
            Binary::Value(v) => r matches Ok(x) && x@ == v,
            Binary::Error(e) => r matches Err(x) && x@ == e,
            Binary::Trap => false,
        },
{
    match op {
        OpCode::Add => match (a, b) {
            (Value::Integer(x), Value::Integer(y)) => Ok(Value::Integer(saturating_add_i64(x, y))),
            (Value::String(x), Value::String(y)) => Ok(Value::String(concat_str(x.as_str(), y.as_str()))),
            (Value::String(x), other) => {
                let mut out = chars_of(x.as_str());
                other.push_display(&mut out);
                Ok(Value::String(string_from_chars(out.as_slice())))
            },
            (other, Value::String(y)) => {
                let mut out: Vec<char> = Vec::new();
                other.push_display(&mut out);
                let rest = chars_of(y.as_str());
                let mut i: usize = 0;
                let ghost start = out@;
                while i < rest.len()
                    invariant
                        0 <= i <= rest.len(),
                        out@ == start + rest@.take(i as int),
                    decreases rest.len() - i,
                {
                    out.push(rest[i]);
                    i = i + 1;
                    assert(rest@.take(i as int) =~= rest@.take((i - 1) as int).push(rest@[i - 1]));
                }
                assert(rest@.take(rest.len() as int) =~= rest@);
                Ok(Value::String(string_from_chars(out.as_slice())))
            },
            _ => Err(InterpreterError::InvalidOperation(String::from_str("Cannot add these value types"))),
        },
        OpCode::Subtract => match (a, b) {
            (Value::Integer(x), Value::Integer(y)) => Ok(Value::Integer(saturating_sub_i64(x, y))),
            _ => Err(InterpreterError::InvalidOperation(String::from_str("Cannot subtract non-integer values"))),
        },
        OpCode::Multiply => match (a, b) {
            (Value::Integer(x), Value::Integer(y)) => Ok(Value::Integer(saturating_mul_i64(x, y))),
            _ => Err(InterpreterError::InvalidOperation(String::from_str("Cannot multiply non-integer values"))),
        },
        OpCode::Divide => match (a, b) {
            (Value::Integer(x), Value::Integer(y)) => {
                if y == 0 {
                    Err(InterpreterError::DivisionByZero)
                } else {
                    Ok(Value::Integer(div_rem_i64(x, y).0))
                }
            },
            _ => Err(InterpreterError::InvalidOperation(String::from_str("Cannot divide non-integer values"))),
        },
        OpCode::Modulo => match (a, b) {
            (Value::Integer(x), Value::Integer(y)) => {
                if y == 0 {
                    Err(InterpreterError::DivisionByZero)
                } else {
                    Ok(Value::Integer(div_rem_i64(x, y).1))
                }
            },
            _ => Err(InterpreterError::InvalidOperation(String::from_str("Cannot modulo non-integer values"))),
        },
        OpCode::Equal => Ok(Value::Boolean(a.equals(&b))),
        OpCode::NotEqual => Ok(Value::Boolean(!a.equals(&b))),
        OpCode::GreaterThan | OpCode::LessThan | OpCode::GreaterEqual | OpCode::LessEqual => {
            match (a, b) {
                (Value::Integer(x), Value::Integer(y)) => {
                    let r = match op {
                        OpCode::GreaterThan => x > y,
                        OpCode::LessThan => x < y,
                        OpCode::GreaterEqual => x >= y,
                        _ => x <= y,
                    };
                    Ok(Value::Boolean(r))
                },
                _ => Err(InterpreterError::InvalidOperation(String::from_str("Cannot compare non-integer values"))),
            }
        },
        OpCode::And => {
            let x = a.is_truthy();
            let y = b.is_truthy();
            Ok(Value::Boolean(x && y))
        },
        _ => {
            let x = a.is_truthy();
            let y = b.is_truthy();
            Ok(Value::Boolean(x || y))
        },
    }
}

/// A gas-metered stack machine that runs bytecode.
pub struct Interpreter {
    stack: Vec<Value>,
    variables: HashMap<String, Value>,
    gas: u64,
}

impl Interpreter {
    /// The values on the stack, bottom first.
    pub closed spec fn stack_view(&self) -> Seq<ValueView> {
        values_view(self.stack@)
    }

    /// The gas left.
    pub closed spec fn gas_left(&self) -> u64 {
        self.gas
    }

    /// The variable table.
    pub closed spec fn variable_table(&self) -> HashMap<String, Value> {
        self.variables
    }

    /// A machine with an empty stack, no variables and `gas_limit` gas.
    pub fn new(gas_limit: u64) -> (r: Interpreter)
        ensures
            r.stack_view() == Seq::<ValueView>::empty(),
            r.gas_left() == gas_limit,
    {
        let r = Interpreter { stack: Vec::new(), variables: HashMap::new(), gas: gas_limit };
        assert(values_view(r.stack@) =~= Seq::<ValueView>::empty());
        r
    }

    /// Sets the gas left.
    pub fn set_gas(&mut self, gas: u64)
        ensures
            final(self).gas_left() == gas,
            final(self).stack_view() == old(self).stack_view(),
            final(self).variable_table() == old(self).variable_table(),
    {
        self.gas = gas;
    }

    /// The gas left.
    pub fn gas(&self) -> (g: u64)
        ensures
            g == self.gas_left(),
    {
        self.gas
    }

    /// The values on the stack, bottom first.
    pub fn stack(&self) -> (s: &[Value])
        ensures
            values_view(s@) == self.stack_view(),
    {
        self.stack.as_slice()
    }

    /// Pushes a value.
    pub fn push_value(&mut self, value: Value)
        ensures
            final(self).stack_view() == old(self).stack_view().push(value@),
            final(self).gas_left() == old(self).gas_left(),
            final(self).variable_table() == old(self).variable_table(),
    {
        proof { lemma_view_push(self.stack@, value); }
        self.stack.push(value);
    }

    /// Pops the top value, or reports `StackUnderflow` on an empty stack.
    pub fn pop_value(&mut self) -> (r: Result<Value, InterpreterError>)
        ensures
            old(self).stack_view().len() == 0 ==> (r matches Err(e) && e@ == ErrorView::StackUnderflow
                && final(self).stack_view() == old(self).stack_view()),
            old(self).stack_view().len() > 0 ==> (r matches Ok(v) && v@ == old(self).stack_view().last()
                && final(self).stack_view() == old(self).stack_view().drop_last()),
            final(self).gas_left() == old(self).gas_left(),
            final(self).variable_table() == old(self).variable_table(),
    {
        proof {
            if self.stack@.len() > 0 {
                lemma_view_drop_last(self.stack@);
            }
        }
        match self.stack.pop() {
            Some(v) => Ok(v),
            None => Err(InterpreterError::StackUnderflow),
        }
    }

    /// Empties the stack.
    pub fn clear_stack(&mut self)
        ensures
            final(self).stack_view() == Seq::<ValueView>::empty(),
            final(self).gas_left() == old(self).gas_left(),
            final(self).variable_table() == old(self).variable_table(),
    {
        self.stack.clear();
        assert(values_view(self.stack@) =~= Seq::<ValueView>::empty());
    }

    /// The variable table.
    pub fn variables(&self) -> (v: &HashMap<String, Value>)
        ensures
            *v == self.variable_table(),
    {
        &self.variables
    }

    fn exec_binary(&mut self, op: OpCode, next: usize) -> (f: Flow)
        requires
            is_binary(op),
            step_binary(op, old(self).stack_view(), next as int) !is Trap,
        ensures
            flow_matches(f, step_binary(op, old(self).stack_view(), next as int), final(self).stack_view()),
            final(self).gas == old(self).gas,
            final(self).variables == old(self).variables,
    {
        let ghost s0 = self.stack@;
        proof {
            if s0.len() > 0 {
                lemma_view_drop_last(s0);
            }
            if s0.len() > 1 {
                lemma_view_drop_last(s0.drop_last());
                assert(s0.drop_last().drop_last() =~= s0.take(s0.len() - 2));
                assert(values_view(s0).take(values_view(s0).len() - 2) =~= values_view(s0).drop_last().drop_last());
            }
        }
        let b = match self.stack.pop() {
            Some(v) => v,
            None => return Flow::Fail(InterpreterError::StackUnderflow),
        };
        let a = match self.stack.pop() {
            Some(v) => v,
            None => return Flow::Fail(InterpreterError::StackUnderflow),
        };
        match apply_binary_values(op, a, b) {
            Ok(v) => {
                proof { lemma_view_push(self.stack@, v); }
                self.stack.push(v);
                Flow::Next(next)
            },
            Err(e) => Flow::Fail(e),
        }
    }

    fn exec_op(&mut self, op: OpCode, code: &[u8], next: usize) -> (f: Flow)
        requires
            next <= code.len(),
            step_op(op, old(self).stack_view(), code@, next as int) !is Trap,
        ensures
            flow_matches(f, step_op(op, old(self).stack_view(), code@, next as int), final(self).stack_view()),
            final(self).gas == old(self).gas,
            final(self).variables == old(self).variables,
    {
        let ghost s0 = self.stack@;
        proof {
            if s0.len() > 0 {
                lemma_view_drop_last(s0);
            }
        }
        if is_binary_op(op) {
            return self.exec_binary(op, next);
        }
        match op {
            OpCode::Push => {
                if code.len() - next < 4 {
                    return Flow::Fail(InterpreterError::InvalidBytecode(String::from_str("Incomplete push instruction")));
                }
                let v = read_i32_le(code, next);
                proof { lemma_view_push(self.stack@, Value::Integer(v)); }
                self.stack.push(Value::Integer(v));
                Flow::Next(next + 4)
            },
            OpCode::Pop => {
                match self.stack.pop() {
                    Some(_) => Flow::Next(next),
                    None => Flow::Fail(InterpreterError::StackUnderflow),
                }
            },
            OpCode::Negate => {
                match self.stack.pop() {
                    Some(Value::Integer(x)) => {
                        proof { lemma_view_push(self.stack@, Value::Integer((-x) as i64)); }
                        self.stack.push(Value::Integer(-x));
                        Flow::Next(next)
                    },
                    Some(_) => Flow::Fail(InterpreterError::InvalidOperation(String::from_str("Cannot negate non-integer value"))),
                    None => Flow::Fail(InterpreterError::StackUnderflow),
                }
            },
            OpCode::Not => {
                match self.stack.pop() {
                    Some(a) => {
                        let t = a.is_truthy();
                        proof { lemma_view_push(self.stack@, Value::Boolean(!t)); }
                        self.stack.push(Value::Boolean(!t));
                        Flow::Next(next)
                    },
                    None => Flow::Fail(InterpreterError::StackUnderflow),
                }
            },
            OpCode::Dup => {
                let len = self.stack.len();
                if len == 0 {
                    return Flow::Fail(InterpreterError::StackUnderflow);
                }
                let v = self.stack[len - 1].duplicate();
                proof { lemma_view_push(self.stack@, v); }
                self.stack.push(v);
                Flow::Next(next)
            },
            OpCode::Swap => {
                if self.stack.len() < 2 {
                    return Flow::Fail(InterpreterError::StackUnderflow);
                }
                let b = self.stack.pop().unwrap();
                let a = self.stack.pop().unwrap();
                proof {
                    lemma_view_drop_last(s0.drop_last());
                    lemma_view_push(self.stack@, b);
                    lemma_view_push(self.stack@.push(b), a);
                }
                self.stack.push(b);
                self.stack.push(a);
                assert(self.stack_view() =~= values_view(s0).take(s0.len() - 2).push(values_view(s0)[s0.len() - 1]).push(values_view(s0)[s0.len() - 2]));
                Flow::Next(next)
            },
            OpCode::Halt => Flow::Stop,
            _ => Flow::Fail(InterpreterError::UnsupportedOpcode(op.name_string())),
        }
    }

    fn exec_step(&mut self, code: &[u8], ip: usize) -> (f: Flow)
        requires
            ip < code.len(),
            step(old(self).stack_view(), code@, ip as int) !is Trap,
        ensures
            flow_matches(f, step(old(self).stack_view(), code@, ip as int), final(self).stack_view()),
            final(self).gas == old(self).gas,
            final(self).variables == old(self).variables,
    {
        match OpCode::from_byte(code[ip]) {
            None => Flow::Fail(InterpreterError::InvalidBytecode(with_decimal_u64("Invalid opcode: ", code[ip] as u64))),
            Some(op) => self.exec_op(op, code, ip + 1),
        }
    }

    /// Runs `bytecode` from its first byte until it ends, halts or fails.
    ///
    /// Each instruction costs one unit of gas, charged before it runs; the stack
    /// and the gas are left as [`run`] describes, on success and on failure alike.
    pub fn execute_bytecode(&mut self, bytecode: &[u8]) -> (r: Result<(), InterpreterError>)
        requires
            run(old(self).stack_view(), old(self).gas_left() as nat, bytecode@, 0) !is Trapped,
        ensures
            match run(old(self).stack_view(), old(self).gas_left() as nat, bytecode@, 0) {
                Outcome::Done { stack, gas } => r is Ok && final(self).stack_view() == stack
                    && final(self).gas_left() == gas,
                Outcome::Failed { stack, gas, error } => r matches Err(e) && e@ == error
                    && final(self).stack_view() == stack && final(self).gas_left() == gas,
                Outcome::Trapped => false,
            },
            final(self).variable_table() == old(self).variable_table(),
    {
        let ghost goal = run(self.stack_view(), self.gas as nat, bytecode@, 0);
        let mut ip: usize = 0;
        while ip < bytecode.len()
            invariant
                ip <= bytecode.len(),
                run(self.stack_view(), self.gas as nat, bytecode@, ip as int) == goal,
                goal !is Trapped,
                goal == run(old(self).stack_view(), old(self).gas_left() as nat, bytecode@, 0),
                self.variables == old(self).variables,
            decreases self.gas,
        {
            let ghost st = self.stack_view();
            let ghost g = self.gas as nat;
            if self.gas == 0 {
                assert(run(st, g, bytecode@, ip as int) == (Outcome::Failed { stack: st, gas: 0, error: ErrorView::OutOfGas }));
                return Err(InterpreterError::OutOfGas);
            }
            assert(step(st, bytecode@, ip as int) !is Trap);
            self.gas = self.gas - 1;
            let f = self.exec_step(bytecode, ip);
            match f {
                Flow::Next(n) => {
                    ip = n;
                },
                Flow::Stop => {
                    return Ok(());
                },
                Flow::Fail(e) => {
                    return Err(e);
                },
            }
        }
        Ok(())
    }
}

/// Whether an opcode pops two operands.
pub fn is_binary_op(op: OpCode) -> (b: bool)
    ensures
        b == is_binary(op),
{
    match op {
        OpCode::Add | OpCode::Subtract | OpCode::Multiply | OpCode::Divide | OpCode::Modulo
        | OpCode::Equal | OpCode::NotEqual | OpCode::GreaterThan | OpCode::LessThan
        | OpCode::GreaterEqual | OpCode::LessEqual | OpCode::And | OpCode::Or => true,
        _ => false,
    }
}

/// The signed 32-bit little-endian immediate at `code[at..at + 4]`.
pub fn read_i32_le(code: &[u8], at: usize) -> (v: i64)
    requires
        at + 4 <= code.len(),
    ensures
        v == crate::runtime::semantics::imm_i32(code@, at as int),
{
    let u: i64 = code[at] as i64 + code[at + 1] as i64 * 0x100 + code[at + 2] as i64 * 0x1_0000
        + code[at + 3] as i64 * 0x100_0000;
    if u >= 0x8000_0000 { u - 0x1_0000_0000 } else { u }
}

/// The unsigned 32-bit little-endian number at `code[at..at + 4]`.
pub fn read_u32_le(code: &[u8], at: usize) -> (v: u64)
    requires
        at + 4 <= code.len(),
    ensures
        v == crate::runtime::semantics::imm_u32(code@, at as int),
{
    code[at] as u64 + code[at + 1] as u64 * 0x100 + code[at + 2] as u64 * 0x1_0000
        + code[at + 3] as u64 * 0x100_0000
}


/// The text `String::from_utf8_lossy` makes of `bytes`; valid UTF-8 is decoded as it stands.
#[verifier::external_body]
fn lossy_text(bytes: &[u8]) -> (r: String)
    ensures
        r@ == utf8_lossy(bytes@),
        valid_utf8(bytes@) ==> r@ == decode_utf8(bytes@),
{
    String::from_utf8_lossy(bytes).into_owned()
}

/// One answered foreign request: the name, the arguments and what the table returned.
pub type FfiRecord = (String, Vec<Value>, Option<Result<Value, InterpreterError>>);

/// The view of a table's answer.
pub open spec fn reply_view(r: Option<Result<Value, InterpreterError>>) -> FfiReply {
    match r {
        None => FfiReply::Missing,
        Some(Ok(v)) => FfiReply::Returned(v@),
        Some(Err(e)) => FfiReply::Raised(e@),
    }
}

/// The answers recorded in `recs`, in order.
pub open spec fn replies_of(recs: Seq<FfiRecord>) -> Seq<FfiReply> {
    recs.map_values(|r: FfiRecord| reply_view(r.2))
}

/// The requests recorded in `recs`, in order.
pub open spec fn calls_of(recs: Seq<FfiRecord>) -> Seq<FfiCall> {
    recs.map_values(|r: FfiRecord| FfiCall { name: r.0@, args: values_view(r.1@) })
}

/// Every recorded answer is one the table may give to its request.
pub open spec fn answers_valid<F: Fn(&String, &Vec<Value>) -> Option<Result<Value, InterpreterError>>>(
    ffi: F,
    recs: Seq<FfiRecord>,
) -> bool {
    forall|i: int| 0 <= i < recs.len() ==> call_ensures(ffi, (&recs[i].0, &recs[i].1), #[trigger] recs[i].2)
}

/// The result of a foreign-call run, with the stack and gas it leaves, agrees with
/// [`run_ffi`] answered by the recorded replies, and the run made exactly the recorded requests.
pub open spec fn ffi_run_agrees(
    o: FfiOutcome,
    recs: Seq<FfiRecord>,
    r: Result<(), InterpreterError>,
    stack: Seq<ValueView>,
    gas: u64,
) -> bool {
    match o {
        FfiOutcome::Done { stack: s, gas: g, calls } => r is Ok && stack == s && gas == g && calls == calls_of(recs),
        FfiOutcome::Failed { stack: s, gas: g, error, calls } => r matches Err(e) && e@ == error && stack == s
            && gas == g && calls == calls_of(recs),
        FfiOutcome::Trapped => false,
    }
}

/// How an instruction other than `CallFfi` ends in foreign-call mode.
pub open spec fn plain_matches(f: Flow, st: PlainStep, stack: Seq<ValueView>) -> bool {
    match st {
        PlainStep::Next { stack: s, ip } => f matches Flow::Next(n) && n == ip && stack == s,
        PlainStep::Stop { stack: s } => f is Stop && stack == s,
        PlainStep::Fail { stack: s, error } => f matches Flow::Fail(e) && e@ == error && stack == s,
    }
}

/// What `Add`, `Subtract` or `Multiply` compute from two values in foreign-call mode.
pub fn ffi_arith_values(op: OpCode, a: Value, b: Value) -> (r: Result<Value, InterpreterError>)
    requires
        op == OpCode::Add || op == OpCode::Subtract || op == OpCode::Multiply,
    ensures
        match ffi_arith(op, a@, b@) {
            Ok(v) => r matches Ok(x) && x@ == v,
            Err(e) => r matches Err(x) && x@ == e,
        },
{
    match op {
        OpCode::Add => match (a, b) {
            (Value::Integer(x), Value::Integer(y)) => Ok(Value::Integer(saturating_add_i64(x, y))),
            (Value::String(x), Value::String(y)) => Ok(Value::String(concat_str(x.as_str(), y.as_str()))),
            (Value::String(x), Value::Integer(y)) => {
                let mut out = chars_of(x.as_str());
                push_decimal_i64(y, &mut out);
                Ok(Value::String(string_from_chars(out.as_slice())))
            },
            (Value::Integer(x), Value::String(y)) => {
                let mut out: Vec<char> = Vec::new();
                push_decimal_i64(x, &mut out);
                push_str_chars(&mut out, y.as_str());
                Ok(Value::String(string_from_chars(out.as_slice())))
            },
            _ => Err(InterpreterError::TypeMismatch {
                expected: String::from_str("integer or string"),
                found: String::from_str("incompatible types for addition"),
            }),
        },
        OpCode::Subtract => match (a, b) {
            (Value::Integer(x), Value::Integer(y)) => Ok(Value::Integer(saturating_sub_i64(x, y))),
            _ => Err(InterpreterError::TypeMismatch {
                expected: String::from_str("integer"),
                found: String::from_str("incompatible types for subtraction"),
            }),
        },
        _ => match (a, b) {
            (Value::Integer(x), Value::Integer(y)) => Ok(Value::Integer(saturating_mul_i64(x, y))),
            _ => Err(InterpreterError::TypeMismatch {
                expected: String::from_str("integer"),
                found: String::from_str("incompatible types for multiplication"),
            }),
        },
    }
}

/// The message for a foreign function that failed with `e`.
fn failed_call_message(name: &String, e: &InterpreterError) -> (m: String)
    ensures
        m@ == "FFI function '"@ + name@ + "' failed: "@ + error_message(e@),
{
    let mut m = concat_str("FFI function '", name.as_str());
    m.append("' failed: ");
    let inner = e.message();
    m.append(inner.as_str());
    m
}

/// The message for a foreign function that is not registered.
fn missing_call_message(name: &String) -> (m: String)
    ensures
        m@ == "FFI function '"@ + name@ + "' not found"@,
{
    let mut m = concat_str("FFI function '", name.as_str());
    m.append("' not found");
    m
}

impl Interpreter {
    fn exec_plain(&mut self, op: OpCode, code: &[u8], next: usize) -> (f: Flow)
        requires
            next <= code.len(),
            op != OpCode::CallFfi,
        ensures
            plain_matches(f, plain_step(op, old(self).stack_view(), code@, next as int), final(self).stack_view()),
            final(self).gas == old(self).gas,
            final(self).variables == old(self).variables,
    {
        let ghost s0 = self.stack@;
        proof {
            if s0.len() > 0 {
                lemma_view_drop_last(s0);
            }
            if s0.len() > 1 {
                lemma_view_drop_last(s0.drop_last());
                assert(s0.drop_last().drop_last() =~= s0.take(s0.len() - 2));
                assert(values_view(s0).take(values_view(s0).len() - 2) =~= values_view(s0).drop_last().drop_last());
            }
        }
        match op {
            OpCode::Push => {
                if code.len() - next < 4 {
                    return Flow::Fail(InterpreterError::InvalidBytecode(String::from_str("Incomplete push instruction")));
                }
                let v = read_i32_le(code, next);
                proof { lemma_view_push(self.stack@, Value::Integer(v)); }
                self.stack.push(Value::Integer(v));
                Flow::Next(next + 4)
            },
            OpCode::Dup => {
                let len = self.stack.len();
                if len == 0 {
                    return Flow::Fail(InterpreterError::StackUnderflow);
                }
                let v = self.stack[len - 1].duplicate();
                proof { lemma_view_push(self.stack@, v); }
                self.stack.push(v);
                Flow::Next(next)
            },
            OpCode::Pop => {
                match self.stack.pop() {
                    Some(_) => Flow::Next(next),
                    None => Flow::Fail(InterpreterError::StackUnderflow),
                }
            },
            OpCode::Halt => Flow::Stop,
            OpCode::Add | OpCode::Subtract | OpCode::Multiply => {
                if self.stack.len() < 2 {
                    return Flow::Fail(InterpreterError::StackUnderflow);
                }
                let b = self.stack.pop().unwrap();
                let a = self.stack.pop().unwrap();
                match ffi_arith_values(op, a, b) {
                    Ok(v) => {
                        proof { lemma_view_push(self.stack@, v); }
                        self.stack.push(v);
                        Flow::Next(next)
                    },
                    Err(e) => Flow::Fail(e),
                }
            },
            _ => Flow::Fail(InterpreterError::UnsupportedOpcode(op.name_string())),
        }
    }

    /// Runs `bytecode` in foreign-call mode: besides `Push`, `Pop`, `Dup`, `Halt`,
    /// `Add`, `Subtract` and `Multiply`, a `CallFfi` pops its arguments and asks
    /// `ffi` for the function of the encoded name; `None` means no such function.
    ///
    /// Whatever `ffi` answers, the run ends as [`run_ffi`] describes for the
    /// answers it actually gave, and it asked exactly the recorded requests.
    pub fn execute_bytecode_with_ffi<F>(&mut self, bytecode: &[u8], ffi: &F) -> (r: Result<(), InterpreterError>)
        where
            F: Fn(&String, &Vec<Value>) -> Option<Result<Value, InterpreterError>>,
        requires
            forall|name: &String, args: &Vec<Value>| #[trigger] call_requires(*ffi, (name, args)),
            forall|replies: Seq<FfiReply>|
                !(#[trigger] run_ffi(old(self).stack_view(), old(self).gas_left() as nat, bytecode@, 0, replies) is Trapped),
        ensures
            exists|recs: Seq<FfiRecord>|
                answers_valid(*ffi, recs) && ffi_run_agrees(
                    run_ffi(old(self).stack_view(), old(self).gas_left() as nat, bytecode@, 0, replies_of(recs)),
                    recs,
                    r,
                    final(self).stack_view(),
                    final(self).gas_left(),
                ),
            final(self).variable_table() == old(self).variable_table(),
    {
        let ghost s0 = self.stack_view();
        let ghost g0 = self.gas as nat;
        let ghost mut recs: Seq<FfiRecord> = Seq::empty();
        proof {
            assert forall|fut: Seq<FfiReply>| #[trigger] run_ffi(s0, g0, bytecode@, 0, replies_of(recs) + fut)
                == after_calls(calls_of(recs), run_ffi(s0, g0, bytecode@, 0, fut)) by {
                assert(replies_of(recs) + fut =~= fut);
                assert(calls_of(recs) =~= Seq::<FfiCall>::empty());
                lemma_after_no_calls(run_ffi(s0, g0, bytecode@, 0, fut));
            }
        }
        let mut ip: usize = 0;
        while ip < bytecode.len()
            invariant
                ip <= bytecode.len(),
                s0 == old(self).stack_view(),
                g0 == old(self).gas_left() as nat,
                forall|name: &String, args: &Vec<Value>| #[trigger] call_requires(*ffi, (name, args)),
                forall|replies: Seq<FfiReply>| !(#[trigger] run_ffi(s0, g0, bytecode@, 0, replies) is Trapped),
                forall|fut: Seq<FfiReply>| #[trigger] run_ffi(s0, g0, bytecode@, 0, replies_of(recs) + fut)
                    == after_calls(calls_of(recs), run_ffi(self.stack_view(), self.gas as nat, bytecode@, ip as int, fut)),
                answers_valid(*ffi, recs),
                self.variables == old(self).variables,
            decreases self.gas,
        {
            let ghost st = self.stack_view();
            let ghost g = self.gas as nat;
            let ghost here = ip as int;
            assert(replies_of(recs) + Seq::<FfiReply>::empty() =~= replies_of(recs));
            let ghost now = run_ffi(st, g, bytecode@, here, Seq::<FfiReply>::empty());
            assert(run_ffi(s0, g0, bytecode@, 0, replies_of(recs) + Seq::<FfiReply>::empty()) == after_calls(calls_of(recs), now));
            if self.gas == 0 {
                proof {
                    assert(calls_of(recs) + Seq::<FfiCall>::empty() =~= calls_of(recs));
                    assert(ffi_run_agrees(run_ffi(s0, g0, bytecode@, 0, replies_of(recs)), recs,
                        Err(InterpreterError::OutOfGas), st, 0));
                }
                return Err(InterpreterError::OutOfGas);
            }
            self.gas = self.gas - 1;
            match OpCode::from_byte(bytecode[ip]) {
                None => {
                    let e = InterpreterError::InvalidBytecode(with_decimal_u64("Invalid opcode: ", bytecode[ip] as u64));
                    proof {
                        assert(calls_of(recs) + Seq::<FfiCall>::empty() =~= calls_of(recs));
                        assert(ffi_run_agrees(run_ffi(s0, g0, bytecode@, 0, replies_of(recs)), recs,
                            Err(e), self.stack_view(), self.gas));
                    }
                    return Err(e);
                },
                Some(OpCode::CallFfi) => {
                    let next = ip + 1;
                    if bytecode.len() - next < 4 {
                        let e = InterpreterError::InvalidBytecode(String::from_str("Incomplete FFI function name length"));
                        proof {
                            assert(calls_of(recs) + Seq::<FfiCall>::empty() =~= calls_of(recs));
                            assert(ffi_run_agrees(run_ffi(s0, g0, bytecode@, 0, replies_of(recs)), recs,
                                Err(e), self.stack_view(), self.gas));
                        }
                        return Err(e);
                    }
                    let name_len = read_u32_le(bytecode, next);
                    let at = next + 4;
                    if name_len > (bytecode.len() - at) as u64 {
                        let e = InterpreterError::InvalidBytecode(String::from_str("Incomplete FFI function name"));
                        proof {
                            assert(calls_of(recs) + Seq::<FfiCall>::empty() =~= calls_of(recs));
                            assert(ffi_run_agrees(run_ffi(s0, g0, bytecode@, 0, replies_of(recs)), recs,
                                Err(e), self.stack_view(), self.gas));
                        }
                        return Err(e);
                    }
                    let end = at + name_len as usize;
                    if end >= bytecode.len() {
                        let e = InterpreterError::InvalidBytecode(String::from_str("Missing FFI argument count"));
                        proof {
                            assert(calls_of(recs) + Seq::<FfiCall>::empty() =~= calls_of(recs));
                            assert(ffi_run_agrees(run_ffi(s0, g0, bytecode@, 0, replies_of(recs)), recs,
                                Err(e), self.stack_view(), self.gas));
                        }
                        return Err(e);
                    }
                    let name = lossy_text(&bytecode[at..end]);
                    let count = bytecode[end] as usize;
                    let len = self.stack.len();
                    if len < count {
                        self.stack.clear();
                        proof {
                            assert(values_view(self.stack@) =~= Seq::<ValueView>::empty());
                            assert(calls_of(recs) + Seq::<FfiCall>::empty() =~= calls_of(recs));
                            assert(ffi_run_agrees(run_ffi(s0, g0, bytecode@, 0, replies_of(recs)), recs,
                                Err(InterpreterError::StackUnderflow), self.stack_view(), self.gas));
                        }
                        return Err(InterpreterError::StackUnderflow);
                    }
                    let ghost whole = self.stack@;
                    let args = self.stack.split_off(len - count);
                    proof {
                        assert(values_view(self.stack@) =~= values_view(whole).take(whole.len() - count));
                        assert(values_view(args@) =~= values_view(whole).skip(whole.len() - count));
                    }
                    let reply = ffi(&name, &args);
                    let ghost rec: FfiRecord = (name, args, reply);
                    let ghost call = FfiCall { name: name@, args: values_view(args@) };
                    let ghost rv = reply_view(reply);
                    let ghost old_recs = recs;
                    proof {
                        recs = recs.push(rec);
                        assert(replies_of(recs) =~= replies_of(old_recs).push(rv));
                        assert(calls_of(recs) =~= calls_of(old_recs).push(call));
                        assert(calls_of(old_recs).push(call) =~= calls_of(old_recs) + seq![call]);
                        assert forall|i: int| 0 <= i < recs.len() implies call_ensures(*ffi, (&recs[i].0, &recs[i].1), #[trigger] recs[i].2) by {
                            if i < old_recs.len() {
                                assert(recs[i] == old_recs[i]);
                            }
                        }
                        match call_step(st, bytecode@, here + 1) {
                            CallStep::Request { rest, call: c, resume } => {
                                assert(c == call);
                                assert(rest == self.stack_view());
                                assert(resume == end + 1);
                            },
                            _ => { assert(false); },
                        }
                    }
                    match reply {
                        Some(Ok(v)) => {
                            proof { lemma_view_push(self.stack@, v); }
                            self.stack.push(v);
                            proof {
                                assert forall|fut: Seq<FfiReply>| #[trigger] run_ffi(s0, g0, bytecode@, 0, replies_of(recs) + fut)
                                    == after_calls(calls_of(recs), run_ffi(self.stack_view(), self.gas as nat, bytecode@, (end + 1) as int, fut)) by {
                                    let fut2 = seq![rv] + fut;
                                    assert(replies_of(recs) + fut =~= replies_of(old_recs) + fut2);
                                    assert(fut2.drop_first() =~= fut);
                                    assert(run_ffi(s0, g0, bytecode@, 0, replies_of(old_recs) + fut2)
                                        == after_calls(calls_of(old_recs), run_ffi(st, g, bytecode@, here, fut2)));
                                    lemma_after_calls_assoc(calls_of(old_recs), seq![call],
                                        run_ffi(self.stack_view(), self.gas as nat, bytecode@, (end + 1) as int, fut));
                                }
                            }
                            ip = end + 1;
                        },
                        Some(Err(e)) => {
                            let m = failed_call_message(&name, &e);
                            proof {
                                assert(replies_of(recs) + Seq::<FfiReply>::empty() =~= replies_of(old_recs) + seq![rv]);
                                assert(run_ffi(s0, g0, bytecode@, 0, replies_of(old_recs) + seq![rv])
                                    == after_calls(calls_of(old_recs), run_ffi(st, g, bytecode@, here, seq![rv])));
                                let out = run_ffi(st, g, bytecode@, here, seq![rv]);
                                assert(out == (FfiOutcome::Failed {
                                    stack: self.stack_view(),
                                    gas: self.gas as nat,
                                    error: reply_error(call.name, rv),
                                    calls: seq![call],
                                }));
                                assert(reply_error(call.name, rv) == ErrorView::RuntimeError(m@));
                                lemma_after_calls_assoc(calls_of(old_recs), Seq::empty(), out);
                                assert(calls_of(old_recs) + seq![call] =~= calls_of(recs));
                                assert(answers_valid(*ffi, recs));
                                assert(ffi_run_agrees(run_ffi(s0, g0, bytecode@, 0, replies_of(recs)), recs,
                                    Err(InterpreterError::RuntimeError(m)), self.stack_view(), self.gas));
                            }
                            return Err(InterpreterError::RuntimeError(m));
                        },
                        None => {
                            let m = missing_call_message(&name);
                            proof {
                                assert(replies_of(recs) + Seq::<FfiReply>::empty() =~= replies_of(old_recs) + seq![rv]);
                                assert(run_ffi(s0, g0, bytecode@, 0, replies_of(old_recs) + seq![rv])
                                    == after_calls(calls_of(old_recs), run_ffi(st, g, bytecode@, here, seq![rv])));
                                let out = run_ffi(st, g, bytecode@, here, seq![rv]);
                                assert(out == (FfiOutcome::Failed {
                                    stack: self.stack_view(),
                                    gas: self.gas as nat,
                                    error: reply_error(call.name, rv),
                                    calls: seq![call],
                                }));
                                assert(reply_error(call.name, rv) == ErrorView::RuntimeError(m@));
                                lemma_after_calls_assoc(calls_of(old_recs), Seq::empty(), out);
                                assert(calls_of(old_recs) + seq![call] =~= calls_of(recs));
                                assert(answers_valid(*ffi, recs));
                                assert(ffi_run_agrees(run_ffi(s0, g0, bytecode@, 0, replies_of(recs)), recs,
                                    Err(InterpreterError::RuntimeError(m)), self.stack_view(), self.gas));
                            }
                            return Err(InterpreterError::RuntimeError(m));
                        },
                    }
                },
                Some(op) => {
                    let current = self.gas;
                    self.gas = self.gas + 1;
                    let f = self.exec_plain(op, bytecode, ip + 1);
                    match f {
                        Flow::Next(n) => {
                            if current == 0 {
                                proof {
                                    assert(run_ffi(s0, g0, bytecode@, 0, replies_of(recs) + Seq::<FfiReply>::empty()) is Trapped);
                                }
                                assert(false);
                            }
                            self.gas = current - 1;
                            proof {
                                assert forall|fut: Seq<FfiReply>| #[trigger] run_ffi(s0, g0, bytecode@, 0, replies_of(recs) + fut)
                                    == after_calls(calls_of(recs), run_ffi(self.stack_view(), self.gas as nat, bytecode@, n as int, fut)) by {
                                    assert(run_ffi(st, g, bytecode@, here, fut) == run_ffi(self.stack_view(), self.gas as nat, bytecode@, n as int, fut));
                                }
                            }
                            ip = n;
                        },
                        Flow::Stop => {
                            proof {
                                assert(calls_of(recs) + Seq::<FfiCall>::empty() =~= calls_of(recs));
                                assert(ffi_run_agrees(run_ffi(s0, g0, bytecode@, 0, replies_of(recs)), recs,
                                    Ok(()), self.stack_view(), self.gas));
                            }
                            return Ok(());
                        },
                        Flow::Fail(e) => {
                            proof {
                                assert(calls_of(recs) + Seq::<FfiCall>::empty() =~= calls_of(recs));
                                assert(ffi_run_agrees(run_ffi(s0, g0, bytecode@, 0, replies_of(recs)), recs,
                                    Err(e), self.stack_view(), self.gas));
                            }
                            return Err(e);
                        },
                    }
                },
            }
        }
        proof {
            assert(replies_of(recs) + Seq::<FfiReply>::empty() =~= replies_of(recs));
            assert(calls_of(recs) + Seq::<FfiCall>::empty() =~= calls_of(recs));
            assert(ffi_run_agrees(run_ffi(s0, g0, bytecode@, 0, replies_of(recs)), recs,
                Ok(()), self.stack_view(), self.gas));
        }
        Ok(())
    }
}

} // verus!
