//! The query executor: dispatches parsed queries to their handlers.
pub mod errors;
pub mod executor;
pub mod queries;
pub mod utils;
