//! Errors of the table store.
use vstd::prelude::*;
use vstd::string::*;

verus! {

/// Why an operation of the table store failed.
#[derive(Debug, Clone, Copy, PartialEq, Eq, Structural)]
pub enum PersistenceErrors {
    TableCreation,
    TableDrop,
    Insert,
    TableLoading,
    RowSeeking,
    IndexRefresh,
    IndexLoading,
    IndexCreating,
    RowDeletion,
}

impl PersistenceErrors {
    /// The message of the error.
    pub open spec fn text(self) -> Seq<char> {
        match self {
            PersistenceErrors::TableCreation => "Table wasn't created."@,
            PersistenceErrors::TableDrop => "Table wasn't dropped."@,
            PersistenceErrors::Insert => "Insert wasn't successful."@,
            PersistenceErrors::TableLoading => "Table couldn't be loaded."@,
            PersistenceErrors::RowSeeking => "Row with this number doesn't exist or there was io problem."@,
            PersistenceErrors::IndexRefresh => "Index was unable to be refreshed."@,
            PersistenceErrors::IndexLoading => "Index wasn't loaded properly."@,
            PersistenceErrors::IndexCreating => "Index wasn't loaded properly."@,
            PersistenceErrors::RowDeletion => "Row wasn't deleted properly."@,
        }
    }

    /// Writes the message of the error.
    pub fn message(&self) -> (s: String)
        ensures
            s@ == self.text(),
    {
        match self {
            PersistenceErrors::TableCreation => String::from_str("Table wasn't created."),
            PersistenceErrors::TableDrop => String::from_str("Table wasn't dropped."),
            PersistenceErrors::Insert => String::from_str("Insert wasn't successful."),
            PersistenceErrors::TableLoading => String::from_str("Table couldn't be loaded."),
            PersistenceErrors::RowSeeking => String::from_str(
                "Row with this number doesn't exist or there was io problem.",
            ),
            PersistenceErrors::IndexRefresh => String::from_str(
                "Index was unable to be refreshed.",
            ),
            PersistenceErrors::IndexLoading => String::from_str("Index wasn't loaded properly."),
            PersistenceErrors::IndexCreating => String::from_str("Index wasn't loaded properly."),
            PersistenceErrors::RowDeletion => String::from_str("Row wasn't deleted properly."),
        }
    }
}

} // verus!
