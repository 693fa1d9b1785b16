//! The storage engine: byte codecs for columns, rows and indexes, and the table store.
pub mod bytes;
pub mod column;
pub mod errors;
pub mod index;
pub mod row;
pub mod storage;
pub mod table;
pub mod table_iterator;
