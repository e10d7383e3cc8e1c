//! Flow definitions: blocks and how they connect.

pub mod definition;

pub use definition::{BlockDefinition, BlockType, FlowDefinition};
