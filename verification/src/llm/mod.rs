//! Helpers of the language-model layer: errors and text utilities.

pub mod utils;
pub mod errors;
pub mod manager;
pub mod prompts;
pub mod validation;
pub mod conversation;
pub mod collaboration;
