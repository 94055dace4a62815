//! Request bodies of the accounts REST API around the engine.
pub mod user;
