//! The services that answer for a model: what they are sent and what they send.
pub mod anthropic;
pub mod attempts;
pub mod console;
pub mod events;
pub mod openai;
pub mod status;
