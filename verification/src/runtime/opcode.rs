use vstd::prelude::*;
use crate::text::{concat_str, decimal_nat, with_decimal_u64};

verus! {

/// The instruction set of the runtime's stack machine.
#[derive(Debug, Clone, Copy, PartialEq, Eq, Structural)]
pub enum OpCode {
    Push,
    Pop,
    Add,
    Subtract,
    Multiply,
    Divide,
    Modulo,
    Equal,
    NotEqual,
    GreaterThan,
    LessThan,
    GreaterEqual,
    LessEqual,
    And,
    Or,
    Not,
    Jump,
    JumpIfTrue,
    JumpIfFalse,
    Call,
    Return,
    LoadVar,
    StoreVar,
    LoadIndex,
    Dup,
    Swap,
    Negate,
    CallFfi,
    Halt,
}

impl OpCode {
    /// The byte that encodes this opcode.
    pub open spec fn code(self) -> u8 {
        match self {
            OpCode::Push => 0,
            OpCode::Pop => 1,
            OpCode::Add => 2,
            OpCode::Subtract => 3,
            OpCode::Multiply => 4,
            OpCode::Divide => 5,
            OpCode::Modulo => 6,
            OpCode::Equal => 7,
            OpCode::NotEqual => 8,
            OpCode::GreaterThan => 9,
            OpCode::LessThan => 10,
            OpCode::GreaterEqual => 11,
            OpCode::LessEqual => 12,
            OpCode::And => 13,
            OpCode::Or => 14,
            OpCode::Not => 15,
            OpCode::Jump => 16,
            OpCode::JumpIfTrue => 17,
            OpCode::JumpIfFalse => 18,
            OpCode::Call => 19,
            OpCode::Return => 20,
            OpCode::LoadVar => 21,
            OpCode::StoreVar => 22,
            OpCode::LoadIndex => 23,
            OpCode::Dup => 24,
            OpCode::Swap => 25,
            OpCode::Negate => 26,
            OpCode::CallFfi => 27,
            OpCode::Halt => 28,
        }
    }

    /// The opcode a byte encodes, if any.
    pub open spec fn decode(b: u8) -> Option<OpCode> {
        if b == 0 { Some(OpCode::Push) }
        else if b == 1 { Some(OpCode::Pop) }
        else if b == 2 { Some(OpCode::Add) }
        else if b == 3 { Some(OpCode::Subtract) }
        else if b == 4 { Some(OpCode::Multiply) }
        else if b == 5 { Some(OpCode::Divide) }
        else if b == 6 { Some(OpCode::Modulo) }
        else if b == 7 { Some(OpCode::Equal) }
        else if b == 8 { Some(OpCode::NotEqual) }
        else if b == 9 { Some(OpCode::GreaterThan) }
        else if b == 10 { Some(OpCode::LessThan) }
        else if b == 11 { Some(OpCode::GreaterEqual) }
        else if b == 12 { Some(OpCode::LessEqual) }
        else if b == 13 { Some(OpCode::And) }
        else if b == 14 { Some(OpCode::Or) }
        else if b == 15 { Some(OpCode::Not) }
        else if b == 16 { Some(OpCode::Jump) }
        else if b == 17 { Some(OpCode::JumpIfTrue) }
        else if b == 18 { Some(OpCode::JumpIfFalse) }
        else if b == 19 { Some(OpCode::Call) }
        else if b == 20 { Some(OpCode::Return) }
        else if b == 21 { Some(OpCode::LoadVar) }
        else if b == 22 { Some(OpCode::StoreVar) }
        else if b == 23 { Some(OpCode::LoadIndex) }
        else if b == 24 { Some(OpCode::Dup) }
        else if b == 25 { Some(OpCode::Swap) }
        else if b == 26 { Some(OpCode::Negate) }
        else if b == 27 { Some(OpCode::CallFfi) }
        else if b == 28 { Some(OpCode::Halt) }
        else { None }
    }

    /// The name under which an opcode is reported, as its variant is written.
    pub open spec fn name(self) -> Seq<char> {
        match self {
            OpCode::Push => "Push"@,
            OpCode::Pop => "Pop"@,
            OpCode::Add => "Add"@,
            OpCode::Subtract => "Subtract"@,
            OpCode::Multiply => "Multiply"@,
            OpCode::Divide => "Divide"@,
            OpCode::Modulo => "Modulo"@,
            OpCode::Equal => "Equal"@,
            OpCode::NotEqual => "NotEqual"@,
            OpCode::GreaterThan => "GreaterThan"@,
            OpCode::LessThan => "LessThan"@,
            OpCode::GreaterEqual => "GreaterEqual"@,
            OpCode::LessEqual => "LessEqual"@,
            OpCode::And => "And"@,
            OpCode::Or => "Or"@,
            OpCode::Not => "Not"@,
            OpCode::Jump => "Jump"@,
            OpCode::JumpIfTrue => "JumpIfTrue"@,
            OpCode::JumpIfFalse => "JumpIfFalse"@,
            OpCode::Call => "Call"@,
            OpCode::Return => "Return"@,
            OpCode::LoadVar => "LoadVar"@,
            OpCode::StoreVar => "StoreVar"@,
            OpCode::LoadIndex => "LoadIndex"@,
            OpCode::Dup => "Dup"@,
            OpCode::Swap => "Swap"@,
            OpCode::Negate => "Negate"@,
            OpCode::CallFfi => "CallFfi"@,
            OpCode::Halt => "Halt"@,
        }
    }

    /// The byte that encodes this opcode.
    pub fn to_byte(self) -> (b: u8)
        ensures
            b == self.code(),
    {
        match self {
            OpCode::Push => 0,
            OpCode::Pop => 1,
            OpCode::Add => 2,
            OpCode::Subtract => 3,
            OpCode::Multiply => 4,
            OpCode::Divide => 5,
            OpCode::Modulo => 6,
            OpCode::Equal => 7,
            OpCode::NotEqual => 8,
            OpCode::GreaterThan => 9,
            OpCode::LessThan => 10,
            OpCode::GreaterEqual => 11,
            OpCode::LessEqual => 12,
            OpCode::And => 13,
            OpCode::Or => 14,
            OpCode::Not => 15,
            OpCode::Jump => 16,
            OpCode::JumpIfTrue => 17,
            OpCode::JumpIfFalse => 18,
            OpCode::Call => 19,
            OpCode::Return => 20,
            OpCode::LoadVar => 21,
            OpCode::StoreVar => 22,
            OpCode::LoadIndex => 23,
            OpCode::Dup => 24,
            OpCode::Swap => 25,
            OpCode::Negate => 26,
            OpCode::CallFfi => 27,
            OpCode::Halt => 28,
        }
    }

    /// The opcode a byte encodes, or `None` for a byte above 28.
    pub fn from_byte(b: u8) -> (r: Option<OpCode>)
        ensures
            r == OpCode::decode(b),
    {
        if b == 0 { Some(OpCode::Push) }
        else if b == 1 { Some(OpCode::Pop) }
        else if b == 2 { Some(OpCode::Add) }
        else if b == 3 { Some(OpCode::Subtract) }
        else if b == 4 { Some(OpCode::Multiply) }
        else if b == 5 { Some(OpCode::Divide) }
        else if b == 6 { Some(OpCode::Modulo) }
        else if b == 7 { Some(OpCode::Equal) }
        else if b == 8 { Some(OpCode::NotEqual) }
        else if b == 9 { Some(OpCode::GreaterThan) }
        else if b == 10 { Some(OpCode::LessThan) }
        else if b == 11 { Some(OpCode::GreaterEqual) }
        else if b == 12 { Some(OpCode::LessEqual) }
        else if b == 13 { Some(OpCode::And) }
        else if b == 14 { Some(OpCode::Or) }
        else if b == 15 { Some(OpCode::Not) }
        else if b == 16 { Some(OpCode::Jump) }
        else if b == 17 { Some(OpCode::JumpIfTrue) }
        else if b == 18 { Some(OpCode::JumpIfFalse) }
        else if b == 19 { Some(OpCode::Call) }
        else if b == 20 { Some(OpCode::Return) }
        else if b == 21 { Some(OpCode::LoadVar) }
        else if b == 22 { Some(OpCode::StoreVar) }
        else if b == 23 { Some(OpCode::LoadIndex) }
        else if b == 24 { Some(OpCode::Dup) }
        else if b == 25 { Some(OpCode::Swap) }
        else if b == 26 { Some(OpCode::Negate) }
        else if b == 27 { Some(OpCode::CallFfi) }
        else if b == 28 { Some(OpCode::Halt) }
        else { None }
    }

    /// The name under which an opcode is reported.
    pub fn name_string(self) -> (s: String)
        ensures
            s@ == self.name(),
    {
        let text = match self {
            OpCode::Push => "Push",
            OpCode::Pop => "Pop",
            OpCode::Add => "Add",
            OpCode::Subtract => "Subtract",
            OpCode::Multiply => "Multiply",
            OpCode::Divide => "Divide",
            OpCode::Modulo => "Modulo",
            OpCode::Equal => "Equal",
            OpCode::NotEqual => "NotEqual",
            OpCode::GreaterThan => "GreaterThan",
            OpCode::LessThan => "LessThan",
            OpCode::GreaterEqual => "GreaterEqual",
            OpCode::LessEqual => "LessEqual",
            OpCode::And => "And",
            OpCode::Or => "Or",
            OpCode::Not => "Not",
            OpCode::Jump => "Jump",
            OpCode::JumpIfTrue => "JumpIfTrue",
            OpCode::JumpIfFalse => "JumpIfFalse",
            OpCode::Call => "Call",
            OpCode::Return => "Return",
            OpCode::LoadVar => "LoadVar",
            OpCode::StoreVar => "StoreVar",
            OpCode::LoadIndex => "LoadIndex",
            OpCode::Dup => "Dup",
            OpCode::Swap => "Swap",
            OpCode::Negate => "Negate",
            OpCode::CallFfi => "CallFfi",
            OpCode::Halt => "Halt",
        };
        String::from_str(text)
    }
}

/// Encoding an opcode and decoding the byte gives the opcode back.
pub proof fn lemma_opcode_roundtrip(op: OpCode)
    ensures
        OpCode::decode(op.code()) == Some(op),
{
}

/// Every byte that decodes to an opcode is that opcode's encoding.
pub proof fn lemma_decode_inverse(b: u8)
    ensures
        OpCode::decode(b) matches Some(op) ==> op.code() == b,
        OpCode::decode(b) is Some <==> b <= 28,
{
}

/// The errors that running bytecode can report.
#[derive(Debug, Clone, PartialEq, Eq)]
pub enum InterpreterError {
    StackUnderflow,
    StackOverflow,
    OutOfGas,
    DivisionByZero,
    InvalidBytecode(String),
    UnsupportedOpcode(String),
    InvalidOperation(String),
    RuntimeError(String),
    VariableNotFound(String),
    TypeMismatch { expected: String, found: String },
    FfiNotFound(String),
    InvalidAssignmentTarget(String),
    InternalVMError(String),
}

/// The abstract content of an [`InterpreterError`]: its variant and texts.
pub enum ErrorView {
    StackUnderflow,
    StackOverflow,
    OutOfGas,
    DivisionByZero,
    InvalidBytecode(Seq<char>),
    UnsupportedOpcode(Seq<char>),
    InvalidOperation(Seq<char>),
    RuntimeError(Seq<char>),
    VariableNotFound(Seq<char>),
    TypeMismatch(Seq<char>, Seq<char>),
    FfiNotFound(Seq<char>),
    InvalidAssignmentTarget(Seq<char>),
    InternalVMError(Seq<char>),
}

impl View for InterpreterError {
    type V = ErrorView;

    open spec fn view(&self) -> ErrorView {
        match self {
            InterpreterError::StackUnderflow => ErrorView::StackUnderflow,
            InterpreterError::StackOverflow => ErrorView::StackOverflow,
            InterpreterError::OutOfGas => ErrorView::OutOfGas,
            InterpreterError::DivisionByZero => ErrorView::DivisionByZero,
            InterpreterError::InvalidBytecode(s) => ErrorView::InvalidBytecode(s@),
            InterpreterError::UnsupportedOpcode(s) => ErrorView::UnsupportedOpcode(s@),
            InterpreterError::InvalidOperation(s) => ErrorView::InvalidOperation(s@),
            InterpreterError::RuntimeError(s) => ErrorView::RuntimeError(s@),
            InterpreterError::VariableNotFound(s) => ErrorView::VariableNotFound(s@),
            InterpreterError::TypeMismatch { expected, found } => ErrorView::TypeMismatch(expected@, found@),
            InterpreterError::FfiNotFound(s) => ErrorView::FfiNotFound(s@),
            InterpreterError::InvalidAssignmentTarget(s) => ErrorView::InvalidAssignmentTarget(s@),
            InterpreterError::InternalVMError(s) => ErrorView::InternalVMError(s@),
        }
    }
}

/// The message an error is displayed with.
pub open spec fn error_message(e: ErrorView) -> Seq<char> {
    match e {
        ErrorView::StackUnderflow => "Stack underflow"@,
        ErrorView::StackOverflow => "Stack overflow"@,
        ErrorView::OutOfGas => "Out of gas"@,
        ErrorView::DivisionByZero => "Division by zero"@,
        ErrorView::InvalidBytecode(s) => "Invalid bytecode: "@ + s,
        ErrorView::UnsupportedOpcode(s) => "Unsupported opcode: "@ + s,
        ErrorView::InvalidOperation(s) => "Invalid operation: "@ + s,
        ErrorView::RuntimeError(s) => "Runtime error: "@ + s,
        ErrorView::VariableNotFound(s) => "Variable not found: "@ + s,
        ErrorView::TypeMismatch(expected, found) =>
            "Type mismatch: expected "@ + expected + ", found "@ + found,
        ErrorView::FfiNotFound(s) => "FFI function not found: "@ + s,
        ErrorView::InvalidAssignmentTarget(s) => "Invalid assignment target: "@ + s,
        ErrorView::InternalVMError(s) => "Internal VM Error: "@ + s,
    }
}

/// The text of the error reported for a byte that encodes no opcode.
pub open spec fn invalid_opcode_text(b: u8) -> Seq<char> {
    "Invalid opcode: "@ + decimal_nat(b as nat)
}

impl InterpreterError {
    /// The message this error is displayed with.
    pub fn message(&self) -> (m: String)
        ensures
            m@ == error_message(self@),
    {
        match self {
            InterpreterError::StackUnderflow => String::from_str("Stack underflow"),
            InterpreterError::StackOverflow => String::from_str("Stack overflow"),
            InterpreterError::OutOfGas => String::from_str("Out of gas"),
            InterpreterError::DivisionByZero => String::from_str("Division by zero"),
            InterpreterError::InvalidBytecode(s) => concat_str("Invalid bytecode: ", s.as_str()),
            InterpreterError::UnsupportedOpcode(s) => concat_str("Unsupported opcode: ", s.as_str()),
            InterpreterError::InvalidOperation(s) => concat_str("Invalid operation: ", s.as_str()),
            InterpreterError::RuntimeError(s) => concat_str("Runtime error: ", s.as_str()),
            InterpreterError::VariableNotFound(s) => concat_str("Variable not found: ", s.as_str()),
            InterpreterError::TypeMismatch { expected, found } => {
                let mut m = concat_str("Type mismatch: expected ", expected.as_str());
                m.append(", found ");
                m.append(found.as_str());
                m
            },
            InterpreterError::FfiNotFound(s) => concat_str("FFI function not found: ", s.as_str()),
            InterpreterError::InvalidAssignmentTarget(s) => concat_str("Invalid assignment target: ", s.as_str()),
            InterpreterError::InternalVMError(s) => concat_str("Internal VM Error: ", s.as_str()),
        }
    }
}

/// Decodes a byte into an opcode, reporting a byte above 28 as invalid bytecode.
pub fn decode_opcode(value: u8) -> (r: Result<OpCode, InterpreterError>)
    ensures
        match OpCode::decode(value) {
            Some(op) => r == Ok::<OpCode, InterpreterError>(op),
            None => r matches Err(e) && e@ == ErrorView::InvalidBytecode(invalid_opcode_text(value)),
        },
{
    match OpCode::from_byte(value) {
        Some(op) => Ok(op),
        None => Err(InterpreterError::InvalidBytecode(with_decimal_u64("Invalid opcode: ", value as u64))),
    }
}

impl core::convert::TryFrom<u8> for OpCode {
    type Error = InterpreterError;

    fn try_from(value: u8) -> (r: Result<OpCode, InterpreterError>) {
        decode_opcode(value)
    }
}

impl vstd::std_specs::convert::TryFromSpecImpl<u8> for OpCode {
    /// The error text carries a decimal rendering that is stated by [`decode_opcode`];
    /// the trait-level specification is left to that function.
    open spec fn obeys_try_from_spec() -> bool {
        false
    }

    open spec fn try_from_spec(v: u8) -> Result<OpCode, InterpreterError> {
        match OpCode::decode(v) {
            Some(op) => Ok(op),
            None => Err(arbitrary()),
        }
    }
}

} // verus!
