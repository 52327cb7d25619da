//! A library for auditing Aiken projects with a language model: what a model is told,
//! what it may read, how its replies are understood, and how the services that answer
//! for it are spoken to.
pub mod agent;
pub mod json;
pub mod model;
pub mod providers;
pub mod reads;
pub mod record;
pub mod text;
pub mod wire;
