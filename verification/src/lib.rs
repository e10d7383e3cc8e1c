//! Sleet: a bytecode runtime and orchestration toolkit for agent workflows.
//!
//! The crate is split into the verified runtime core (opcodes, values, the
//! bytecode assembler and the gas-metered interpreter), the orchestration
//! logic (resource pools, allocation policies, validation and scheduling)
//! and text helpers used by the LLM layer.

pub mod json;
pub mod keyed;
pub mod text;
pub mod textops;
pub mod runtime;
pub mod orchestration;
pub mod llm;
pub mod agents;
pub mod ast;
pub mod flows;
