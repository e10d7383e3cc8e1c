//! Orchestration logic: errors, resource pools and allocation policies,
//! input validation, and the analysis of flow definitions.

pub mod errors;
pub mod resources;
pub mod definitions;
pub mod strategies;
pub mod adapter_types;
pub mod validation;
pub mod flow;
pub mod planning;
pub mod stepping;
pub mod adapter_logic;
pub mod tracker;
pub mod config;
pub mod manager;
pub mod session;
pub mod storage;
pub mod cache;
pub mod events;
pub mod execution;
pub mod requirements;
