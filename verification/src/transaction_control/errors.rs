//! Errors of the query executor.
use vstd::prelude::*;
use vstd::string::*;
use crate::parser::errors::{ParseError, ParseErrorView};
use crate::persistence::errors::PersistenceErrors;

verus! {

/// Why a query failed.
#[derive(Debug)]
pub enum QueryError {
    /// The query text was rejected.
    ParseError(ParseError),
    /// The column, and the table that has no such column.
    ColumnNotExists(String, String),
    /// The column that is named twice.
    DuplicateColumn(String),
    /// The table that is already there.
    TableAlreadyExists(String),
    /// The number of values that the table takes, and the number given.
    IncorrectNumberOfValues(usize, usize),
    /// The column, its type, and the type of the value given for it.
    InvalidDataType(String, String, String),
    /// The table store failed.
    Persistence(PersistenceErrors),
}

/// What a `QueryError` is, with text as sequences of characters.
pub enum QueryErrorView {
    ParseError(ParseErrorView),
    ColumnNotExists(Seq<char>, Seq<char>),
    DuplicateColumn(Seq<char>),
    TableAlreadyExists(Seq<char>),
    IncorrectNumberOfValues(int, int),
    InvalidDataType(Seq<char>, Seq<char>, Seq<char>),
    Persistence(PersistenceErrors),
}

impl View for QueryError {
    type V = QueryErrorView;

    open spec fn view(&self) -> QueryErrorView {
        match self {
            QueryError::ParseError(e) => QueryErrorView::ParseError(e@),
            QueryError::ColumnNotExists(c, t) => QueryErrorView::ColumnNotExists(c@, t@),
            QueryError::DuplicateColumn(c) => QueryErrorView::DuplicateColumn(c@),
            QueryError::TableAlreadyExists(t) => QueryErrorView::TableAlreadyExists(t@),
            QueryError::IncorrectNumberOfValues(expected, given) => QueryErrorView::IncorrectNumberOfValues(
                *expected as int,
                *given as int,
            ),
            QueryError::InvalidDataType(c, declared, given) => QueryErrorView::InvalidDataType(
                c@,
                declared@,
                given@,
            ),
            QueryError::Persistence(e) => QueryErrorView::Persistence(*e),
        }
    }
}

} // verus!
