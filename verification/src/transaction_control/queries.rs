//! The handlers of the queries, one for each kind.
pub mod delete;
pub mod index;
pub mod insert;
pub mod select;
pub mod table;
