//! `CREATE INDEX` and `DROP INDEX`.
use vstd::prelude::*;
use vstd::string::*;
use crate::common::webserver_models::{QueryResultData, QueryResultView};
use crate::persistence::errors::PersistenceErrors;
use crate::persistence::storage::Storage;
use crate::persistence::table::{
    column_index_file,
    index_added,
    stored_rows,
    table_bytes,
    with_indexed,
};
use crate::transaction_control::errors::{QueryError, QueryErrorView};
use crate::transaction_control::queries::select::{query_outcome_view, QueryResult};
use crate::transaction_control::utils::common::{
    definition_map,
    get_columns_definition_map,
    lemma_definition_map,
    load_table,
    loaded_table,
};

verus! {

/// The message of a `CREATE INDEX`.
pub open spec fn index_created_message(column_name: Seq<char>, table_name: Seq<char>) -> Seq<
    char,
> {
    "Index on column "@ + column_name + " at table "@ + table_name + " created succesfully."@
}

/// The message of a `DROP INDEX`.
pub open spec fn index_dropped_message(column_name: Seq<char>, table_name: Seq<char>) -> Seq<
    char,
> {
    "Index on column "@ + column_name + " at table "@ + table_name + " dropped succesfully."@
}

/// What a `CREATE INDEX` makes of the files, and what it returns.
pub open spec fn create_index_post(
    column_name: Seq<char>,
    table_name: Seq<char>,
    before: Map<Seq<char>, Seq<u8>>,
    r: Result<QueryResultView, QueryErrorView>,
    after: Map<Seq<char>, Seq<u8>>,
) -> bool {
    match loaded_table(before, table_name) {
        None => r == Err::<QueryResultView, QueryErrorView>(
            QueryErrorView::Persistence(PersistenceErrors::TableLoading),
        ) && after == before,
        Some(table) => if !definition_map(table.columns).contains_key(column_name) {
            r == Err::<QueryResultView, QueryErrorView>(
                QueryErrorView::ColumnNotExists(column_name, table_name),
            ) && after == before
        } else {
            let position = definition_map(table.columns)[column_name].0 as int;
            match stored_rows(table, before) {
                None => r == Err::<QueryResultView, QueryErrorView>(
                    QueryErrorView::Persistence(PersistenceErrors::TableLoading),
                ) && after == before,
                Some(rows) => r == Ok::<QueryResultView, QueryErrorView>(
                    QueryResultView {
                        data: None,
                        message: Some(index_created_message(column_name, table_name)),
                    },
                ) && index_added(table, rows, position, before, after),
            }
        },
    }
}

/// What a `DROP INDEX` makes of the files, and what it returns: the header says that the
/// column is not indexed, and the index file of the column is removed; where there was no
/// such file, that is an error.
pub open spec fn drop_index_post(
    column_name: Seq<char>,
    table_name: Seq<char>,
    before: Map<Seq<char>, Seq<u8>>,
    r: Result<QueryResultView, QueryErrorView>,
    after: Map<Seq<char>, Seq<u8>>,
) -> bool {
    match loaded_table(before, table_name) {
        None => r == Err::<QueryResultView, QueryErrorView>(
            QueryErrorView::Persistence(PersistenceErrors::TableLoading),
        ) && after == before,
        Some(table) => if !definition_map(table.columns).contains_key(column_name) {
            r == Err::<QueryResultView, QueryErrorView>(
                QueryErrorView::ColumnNotExists(column_name, table_name),
            ) && after == before
        } else {
            let position = definition_map(table.columns)[column_name].0 as int;
            let written = before.insert(
                table.name,
                table_bytes(with_indexed(table, position, false)),
            );
            let file = column_index_file(table, position);
            &&& after == written.remove(file)
            &&& r == if written.contains_key(file) {
                Ok::<QueryResultView, QueryErrorView>(
                    QueryResultView {
                        data: None,
                        message: Some(index_dropped_message(column_name, table_name)),
                    },
                )
            } else {
                Err::<QueryResultView, QueryErrorView>(
                    QueryErrorView::Persistence(PersistenceErrors::TableDrop),
                )
            }
        },
    }
}

/// Handles a `CREATE INDEX`.
pub fn process_create_index_query(column_name: String, table_name: String, storage: &mut Storage)
    -> (r: QueryResult)
    requires
        old(storage).wf(),
    ensures
        final(storage).wf(),
        create_index_post(
            column_name@,
            table_name@,
            old(storage)@,
            query_outcome_view(r),
            final(storage)@,
        ),
{
    let mut table = match load_table(storage, table_name.clone()) {
        Ok(table) => table,
        Err(e) => {
            return Err(e);
        },
    };
    let columns_def_map = get_columns_definition_map(&table);
    let column_number = match columns_def_map.get(column_name.as_str()) {
        Some(entry) => entry.0,
        None => {
            return Err(QueryError::ColumnNotExists(column_name, table_name));
        },
    };
    proof {
        assert(table@.columns.len() == table.columns.len());
        lemma_definition_map(table@.columns, table@.columns.len() as int, column_name@);
    }
    match table.add_index(storage, column_number) {
        Ok(_) => {},
        Err(e) => {
            return Err(QueryError::Persistence(e));
        },
    }
    let mut message = String::from_str("Index on column ");
    message.append(column_name.as_str());
    message.append(" at table ");
    message.append(table_name.as_str());
    message.append(" created succesfully.");
    Ok(QueryResultData { data: None, message: Some(message) })
}

/// Handles a `DROP INDEX`.
pub fn process_drop_index_query(column_name: String, table_name: String, storage: &mut Storage)
    -> (r: QueryResult)
    requires
        old(storage).wf(),
    ensures
        final(storage).wf(),
        drop_index_post(
            column_name@,
            table_name@,
            old(storage)@,
            query_outcome_view(r),
            final(storage)@,
        ),
{
    let mut table = match load_table(storage, table_name.clone()) {
        Ok(table) => table,
        Err(e) => {
            return Err(e);
        },
    };
    let columns_def_map = get_columns_definition_map(&table);
    let column_number = match columns_def_map.get(column_name.as_str()) {
        Some(entry) => entry.0,
        None => {
            assert(storage@ =~= old(storage)@);
            return Err(QueryError::ColumnNotExists(column_name, table_name));
        },
    };
    proof {
        assert(table@.columns.len() == table.columns.len());
        lemma_definition_map(table@.columns, table@.columns.len() as int, column_name@);
    }
    match table.remove_index(storage, column_number) {
        Ok(_) => {},
        Err(e) => {
            return Err(QueryError::Persistence(e));
        },
    }
    let mut message = String::from_str("Index on column ");
    message.append(column_name.as_str());
    message.append(" at table ");
    message.append(table_name.as_str());
    message.append(" dropped succesfully.");
    Ok(QueryResultData { data: None, message: Some(message) })
}

} // verus!
