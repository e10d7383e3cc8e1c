pub mod analysis;
pub mod arith;
pub mod assembler;
pub mod opcode;
pub mod profiler;
pub mod segments;
pub mod semantics;
pub mod value;

pub use opcode::{InterpreterError, OpCode};
pub use value::{JsonDatum, Value};
pub mod ffi_semantics;
pub mod interpreter;

pub use interpreter::Interpreter;
pub use assembler::BytecodeAssembler;
pub use profiler::{ExecutionProfiler, Profiler};
