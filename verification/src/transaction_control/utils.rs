//! Helpers of the query handlers.
pub mod common;
pub mod db_info;
