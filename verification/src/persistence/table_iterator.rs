//! The rows of a table, read once and handed out in their order in the row file.
use vstd::prelude::*;
use crate::common::db::{DataView, Row};
use crate::persistence::errors::PersistenceErrors;
use crate::persistence::storage::Storage;
use crate::persistence::table::{rows_fit, rows_view, stored_rows, Table};

verus! {

/// The rows of a table that are still to be handed out.
pub struct RowsIterator {
    rows: Vec<Row>,
}

impl View for RowsIterator {
    type V = Seq<Seq<DataView>>;

    closed spec fn view(&self) -> Seq<Seq<DataView>> {
        rows_view(self.rows@)
    }
}

impl RowsIterator {
    /// Reads all rows of the table. Fails where the row file is missing or does not state
    /// whole rows.
    pub fn from_table(table: &Table, storage: &Storage) -> (r: Result<
        RowsIterator,
        PersistenceErrors,
    >)
        requires
            storage.wf(),
            table.row_size_fits(),
        ensures
            match r {
                Ok(rows) => stored_rows(table@, storage@) == Some(rows@) && rows_fit(
                    rows@,
                    table@.columns,
                ),
                Err(e) => e == PersistenceErrors::TableLoading && stored_rows(table@, storage@)
                    is None,
            },
    {
        match table.read_rows(storage) {
            Some(rows) => Ok(RowsIterator { rows }),
            None => Err(PersistenceErrors::TableLoading),
        }
    }

    /// Hands out the next row, if one is left.
    pub fn next(&mut self) -> (r: Option<Row>)
        ensures
            match r {
                Some(row) => old(self)@.len() > 0 && row@ == old(self)@[0] && final(self)@
                    == old(self)@.subrange(1, old(self)@.len() as int),
                None => old(self)@.len() == 0 && final(self)@ == old(self)@,
            },
    {
        if self.rows.len() > 0 {
            let row = self.rows.remove(0);
            assert(rows_view(self.rows@) =~= rows_view(old(self).rows@).subrange(
                1,
                old(self).rows@.len() as int,
            ));
            Some(row)
        } else {
            None
        }
    }

    /// How many rows are left.
    pub fn count(&self) -> (r: usize)
        ensures
            r == self@.len(),
    {
        self.rows.len()
    }

    /// The rows that are left, in their order.
    pub fn into_rows(self) -> (r: Vec<Row>)
        ensures
            rows_view(r@) == self@,
    {
        self.rows
    }
}

} // verus!
