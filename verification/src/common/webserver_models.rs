//! What a query hands back to the caller, and the envelopes of the request and response.
use vstd::prelude::*;
use crate::common::db::{columns_view, Column, ColumnView, DataView, Row};

verus! {

/// The columns and rows that a query selected.
#[derive(Debug, Default)]
pub struct TableData {
    pub columns: Vec<Column>,
    pub rows: Vec<Row>,
}

/// What a `TableData` is, over the views of its columns and rows.
pub struct TableDataView {
    pub columns: Seq<ColumnView>,
    pub rows: Seq<Seq<DataView>>,
}

impl View for TableData {
    type V = TableDataView;

    open spec fn view(&self) -> TableDataView {
        TableDataView {
            columns: columns_view(self.columns@),
            rows: self.rows@.map_values(|row: Row| row@),
        }
    }
}

/// Whether a query succeeded.
#[derive(Eq, PartialEq, Debug, Default, Clone, Copy, Structural)]
pub enum QueryStatus {
    Succeeded,
    #[default]
    Failed,
}

/// The outcome of a query: the selected data, if any, and a message.
#[derive(Debug, Default)]
pub struct QueryResultData {
    pub data: Option<TableData>,
    pub message: Option<String>,
}

/// What a `QueryResultData` is, with text as sequences of characters.
pub struct QueryResultView {
    pub data: Option<TableDataView>,
    pub message: Option<Seq<char>>,
}

impl View for QueryResultData {
    type V = QueryResultView;

    open spec fn view(&self) -> QueryResultView {
        QueryResultView {
            data: match self.data {
                Some(data) => Some(data@),
                None => None,
            },
            message: match self.message {
                Some(message) => Some(message@),
                None => None,
            },
        }
    }
}

/// The response to a query request.
#[derive(Debug, Default)]
pub struct QueryResponseData {
    pub status: QueryStatus,
    pub data: Option<TableData>,
    pub message: Option<String>,
    pub duration: String,
}

/// A query request.
#[derive(Debug, Default)]
pub struct QueryRequestData {
    pub query: String,
}

} // verus!
