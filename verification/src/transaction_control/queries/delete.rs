//! `DELETE`: removes the rows that a condition selects.
use vstd::prelude::*;
use vstd::string::*;
use crate::common::webserver_models::{QueryResultData, QueryResultView};
use crate::parser::expression_tree::{Node, NodeView};
use crate::parser::expression_tree_eval::{
    computes_floats_as,
    float_op_total,
    floats_unused,
    FloatArithmetic,
    NodeValue,
    Number,
    NumberBinOp,
};
use crate::parser::query_parser::tree_view;
use crate::persistence::errors::PersistenceErrors;
use crate::persistence::row::row_size;
use crate::persistence::storage::Storage;
use crate::persistence::table::{
    indexes_written,
    kept_rows,
    rows_file_name,
    stored_rows,
    TableView,
};
use crate::text::{decimal, usize_to_string};
use crate::transaction_control::errors::{QueryError, QueryErrorView};
use crate::transaction_control::queries::select::{query_outcome_view, QueryResult};
use crate::transaction_control::utils::common::{
    condition_needs_floats,
    get_rows_for_where_condition,
    load_table,
    loaded_table,
    where_rows_spec,
};

verus! {

/// The message of a `DELETE` that removed `count` rows.
pub open spec fn deleted_message(count: nat, table_name: Seq<char>) -> Seq<char> {
    "Deleted "@ + decimal(count) + " rows from table "@ + table_name + "."@
}

/// What removing the rows with the given numbers makes of the files, and what is
/// returned: the row file keeps the other rows in their order, and the index of every
/// indexed column is written anew.
pub open spec fn rows_deleted(
    table: TableView,
    numbers: Seq<u64>,
    table_name: Seq<char>,
    before: Map<Seq<char>, Seq<u8>>,
    r: Result<QueryResultView, QueryErrorView>,
    after: Map<Seq<char>, Seq<u8>>,
) -> bool {
    let rows_name = rows_file_name(table.name);
    if !before.contains_key(rows_name) {
        r == Err::<QueryResultView, QueryErrorView>(
            QueryErrorView::Persistence(PersistenceErrors::TableLoading),
        ) && after == before
    } else {
        let written = before.insert(
            rows_name,
            kept_rows(before[rows_name], row_size(table.columns), numbers),
        );
        match stored_rows(table, written) {
            None => r == Err::<QueryResultView, QueryErrorView>(
                QueryErrorView::Persistence(PersistenceErrors::TableLoading),
            ) && after == written,
            Some(rows) => r == Ok::<QueryResultView, QueryErrorView>(
                QueryResultView {
                    data: None,
                    message: Some(deleted_message(numbers.len(), table_name)),
                },
            ) && indexes_written(table, rows, written, after, table.columns.len() as int),
        }
    }
}

/// What a `DELETE` makes of the files, and what it returns.
pub open spec fn delete_post(
    table_name: Seq<char>,
    where_body: Option<NodeView>,
    before: Map<Seq<char>, Seq<u8>>,
    r: Result<QueryResultView, QueryErrorView>,
    after: Map<Seq<char>, Seq<u8>>,
    floats: FloatArithmetic,
) -> bool {
    match loaded_table(before, table_name) {
        None => r == Err::<QueryResultView, QueryErrorView>(
            QueryErrorView::Persistence(PersistenceErrors::TableLoading),
        ) && after == before,
        Some(table) => match where_rows_spec(table, before, where_body, floats) {
            Err(e) => r == Err::<QueryResultView, QueryErrorView>(e) && after == before,
            Ok(numbers) => rows_deleted(table, numbers, table_name, before, r, after),
        },
    }
}

/// Handles a `DELETE`.
pub fn process_delete_query<A: Fn(NumberBinOp, Number, Number) -> NodeValue>(
    table_name: String,
    where_body: Option<Node>,
    storage: &mut Storage,
    float_op: &A,
) -> (r: QueryResult)
    requires
        old(storage).wf(),
        float_op_total(float_op),
    ensures
        final(storage).wf(),
        forall|floats: FloatArithmetic| #[trigger]
            computes_floats_as(float_op, floats) ==> delete_post(
                table_name@,
                tree_view(where_body),
                old(storage)@,
                query_outcome_view(r),
                final(storage)@,
                floats,
            ),
        !condition_needs_floats(table_name@, tree_view(where_body), old(storage)@) ==> delete_post(
            table_name@,
            tree_view(where_body),
            old(storage)@,
            query_outcome_view(r),
            final(storage)@,
            floats_unused(),
        ),
{
    let table = match load_table(storage, table_name.clone()) {
        Ok(table) => table,
        Err(e) => {
            return Err(e);
        },
    };
    let row_numbers = match get_rows_for_where_condition(&table, storage, where_body, float_op) {
        Ok(numbers) => numbers,
        Err(e) => {
            return Err(e);
        },
    };
    let rows_amount = row_numbers.len();
    match table.delete_rows(storage, row_numbers) {
        Ok(_) => {},
        Err(e) => {
            return Err(QueryError::Persistence(e));
        },
    }
    let mut message = String::from_str("Deleted ");
    message.append(usize_to_string(rows_amount).as_str());
    message.append(" rows from table ");
    message.append(table_name.as_str());
    message.append(".");
    Ok(QueryResultData { data: None, message: Some(message) })
}

} // verus!
