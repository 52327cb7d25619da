//! The conversation with a model: reading its replies and answering them.
pub mod actions;
pub mod conversation;
pub mod findings;
pub mod prompts;
pub mod structured;
