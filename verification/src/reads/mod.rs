//! What a model may read of a project, and how its requests are carried out.
pub mod command;
pub mod glob;
pub mod requests;
pub mod scope;
pub mod task;
pub mod walk;
