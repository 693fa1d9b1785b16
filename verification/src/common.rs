//! Data model shared by the parser, the storage codec and the executor.
pub mod acid_sync;
pub mod db;
pub mod webserver_models;
