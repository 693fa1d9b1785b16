//! Core of a small relational database engine: a query language pipeline,
//! a fixed-width storage codec with hash-bucket indexes, and a query executor
//! that works on an in-memory image of the table files.
pub mod common;
pub mod parser;
pub mod persistence;
pub mod text;
pub mod transaction_control;
