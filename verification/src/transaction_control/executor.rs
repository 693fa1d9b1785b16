//! The entry point of the executor: parses a query text and runs the query.
use vstd::prelude::*;
use vstd::string::*;
use crate::common::webserver_models::QueryResultView;
use crate::parser::expression_tree_eval::{
    computes_floats_as,
    float_op_total,
    floats_unused,
    FloatArithmetic,
    NodeValue,
    Number,
    NumberBinOp,
};
use crate::parser::lexer::{
    float_reader_total,
    lexing_needs_floats,
    no_float_texts,
    reads_floats_as,
};
use crate::parser::query_parser::{parse, parse_spec, Query, QueryView};
use crate::persistence::storage::Storage;
use crate::transaction_control::errors::{QueryError, QueryErrorView};
use crate::transaction_control::queries::delete::{delete_post, process_delete_query};
use crate::transaction_control::utils::common::condition_needs_floats;
use crate::transaction_control::queries::index::{
    create_index_post,
    drop_index_post,
    process_create_index_query,
    process_drop_index_query,
};
use crate::transaction_control::queries::insert::{insert_post, process_insert_query};
use crate::transaction_control::queries::select::{
    process_select_query,
    query_outcome_view,
    select_spec,
    QueryResult,
};
use crate::transaction_control::queries::table::{
    create_table_post,
    drop_needs_floats,
    drop_table_post,
    process_create_table_query,
    process_drop_table_query,
};

verus! {

/// Whether a query changes the table that it names. A query that does must hold the
/// table's lock for writing while it runs; any other may share the lock for reading.
pub open spec fn query_writes(query: QueryView) -> bool {
    !(query is Select)
}

/// Whether a query changes the catalog of tables besides the table that it names. A query
/// that does must hold the lock of the catalog table for writing as well.
pub open spec fn query_changes_catalog(query: QueryView) -> bool {
    query is CreateTable || query is DropTable
}

/// The table that a query names, whose lock the query is run under.
pub open spec fn query_table(query: QueryView) -> Seq<char> {
    match query {
        QueryView::Select { table_name, .. } => table_name,
        QueryView::Insert { table_name, .. } => table_name,
        QueryView::Delete { table_name, .. } => table_name,
        QueryView::CreateTable { table_name, .. } => table_name,
        QueryView::CreateIndex { table_name, .. } => table_name,
        QueryView::DropIndex { table_name, .. } => table_name,
        QueryView::DropTable { table_name } => table_name,
    }
}

impl Query {
    /// The table that the query names.
    pub fn table_name(&self) -> (r: &String)
        ensures
            r@ == query_table(self@),
    {
        match self {
            Query::Select { table_name, .. } => table_name,
            Query::Insert { table_name, .. } => table_name,
            Query::Delete { table_name, .. } => table_name,
            Query::CreateTable { table_name, .. } => table_name,
            Query::CreateIndex { table_name, .. } => table_name,
            Query::DropIndex { table_name, .. } => table_name,
            Query::DropTable { table_name } => table_name,
        }
    }

    /// Whether the query changes the catalog of tables besides the table that it names.
    pub fn changes_catalog(&self) -> (r: bool)
        ensures
            r == query_changes_catalog(self@),
    {
        match self {
            Query::CreateTable { .. } => true,
            Query::DropTable { .. } => true,
            _ => false,
        }
    }

    /// Whether the query changes the table that it names.
    pub fn writes(&self) -> (r: bool)
        ensures
            r == query_writes(self@),
    {
        match self {
            Query::Select { .. } => false,
            _ => true,
        }
    }
}

/// What running a parsed query makes of the files, and what it returns: what the handler
/// of its kind makes of them.
pub open spec fn run_query_post(
    query: QueryView,
    before: Map<Seq<char>, Seq<u8>>,
    r: Result<QueryResultView, QueryErrorView>,
    after: Map<Seq<char>, Seq<u8>>,
    floats: FloatArithmetic,
) -> bool {
    match query {
        QueryView::CreateTable { table_name, columns_definition } => create_table_post(
            table_name,
            columns_definition,
            before,
            r,
            after,
        ),
        QueryView::Insert { values, columns, table_name } => insert_post(
            values,
            table_name,
            columns,
            before,
            r,
            after,
        ),
        QueryView::Select { body, table_name, where_body } => r == select_spec(
            body,
            table_name,
            where_body,
            before,
            floats,
        ) && after == before,
        QueryView::CreateIndex { column_name, table_name } => create_index_post(
            column_name,
            table_name,
            before,
            r,
            after,
        ),
        QueryView::DropIndex { column_name, table_name } => drop_index_post(
            column_name,
            table_name,
            before,
            r,
            after,
        ),
        QueryView::DropTable { table_name } => drop_table_post(table_name, before, r, after, floats),
        QueryView::Delete { table_name, where_body } => delete_post(
            table_name,
            where_body,
            before,
            r,
            after,
            floats,
        ),
    }
}

/// Whether running a query may reach an operator on floats: the condition of a `SELECT` or
/// `DELETE` may, and so may a `DROP TABLE` where it removes the table from the catalog.
pub open spec fn query_needs_floats(query: QueryView, files: Map<Seq<char>, Seq<u8>>) -> bool {
    match query {
        QueryView::Select { table_name, where_body, .. } => condition_needs_floats(
            table_name,
            where_body,
            files,
        ),
        QueryView::Delete { table_name, where_body } => condition_needs_floats(
            table_name,
            where_body,
            files,
        ),
        QueryView::DropTable { table_name } => drop_needs_floats(table_name, files),
        _ => false,
    }
}

/// What a query text makes of the files, and what it returns: a text that states no query
/// changes nothing and returns the error of the parser.
pub open spec fn process_query_post(
    query: Seq<char>,
    before: Map<Seq<char>, Seq<u8>>,
    r: Result<QueryResultView, QueryErrorView>,
    after: Map<Seq<char>, Seq<u8>>,
    float_texts: spec_fn(Seq<char>) -> Option<u64>,
    floats: FloatArithmetic,
) -> bool {
    match parse_spec(query, float_texts) {
        Err(e) => r == Err::<QueryResultView, QueryErrorView>(QueryErrorView::ParseError(e))
            && after == before,
        Ok(parsed) => run_query_post(parsed, before, r, after, floats),
    }
}

/// Whether processing a query text may need floats: a lexeme of the text has the form of a
/// float literal, or running the query may reach an operator on floats.
pub open spec fn process_needs_floats(query: Seq<char>, files: Map<Seq<char>, Seq<u8>>) -> bool {
    lexing_needs_floats(query) || (parse_spec(query, no_float_texts()) matches Ok(parsed)
        && query_needs_floats(parsed, files))
}

/// Runs a parsed query on the files.
pub fn run_query<A: Fn(NumberBinOp, Number, Number) -> NodeValue>(
    query: Query,
    storage: &mut Storage,
    float_op: &A,
) -> (r: QueryResult)
    requires
        old(storage).wf(),
        float_op_total(float_op),
    ensures
        final(storage).wf(),
        forall|floats: FloatArithmetic| #[trigger]
            computes_floats_as(float_op, floats) ==> run_query_post(
                query@,
                old(storage)@,
                query_outcome_view(r),
                final(storage)@,
                floats,
            ),
        !query_needs_floats(query@, old(storage)@) ==> run_query_post(
            query@,
            old(storage)@,
            query_outcome_view(r),
            final(storage)@,
            floats_unused(),
        ),
{
    match query {
        Query::CreateTable { table_name, columns_definition } => process_create_table_query(
            table_name,
            columns_definition,
            storage,
        ),
        Query::Insert { values, table_name, columns } => process_insert_query(
            values,
            table_name,
            columns,
            storage,
        ),
        Query::Select { body, table_name, where_body } => process_select_query(
            body,
            table_name,
            where_body,
            storage,
            float_op,
        ),
        Query::CreateIndex { column_name, table_name } => process_create_index_query(
            column_name,
            table_name,
            storage,
        ),
        Query::DropIndex { column_name, table_name } => process_drop_index_query(
            column_name,
            table_name,
            storage,
        ),
        Query::DropTable { table_name } => process_drop_table_query(table_name, storage, float_op),
        Query::Delete { table_name, where_body } => process_delete_query(
            table_name,
            where_body,
            storage,
            float_op,
        ),
    }
}

/// Parses a query text and runs the query on the files. `parse_float` reads a float
/// literal and returns its bit pattern; `float_op` computes the operators on floats. Where
/// the query holds no float literal and reaches no operator on floats, neither is asked, and
/// the outcome is the same whatever they are.
pub fn process_query<P: Fn(&str) -> Option<u64>, A: Fn(NumberBinOp, Number, Number) -> NodeValue>(
    query: &str,
    storage: &mut Storage,
    parse_float: &P,
    float_op: &A,
) -> (r: QueryResult)
    requires
        old(storage).wf(),
        float_reader_total(parse_float),
        float_op_total(float_op),
    ensures
        final(storage).wf(),
        forall|float_texts: spec_fn(Seq<char>) -> Option<u64>, floats: FloatArithmetic|
            #![trigger reads_floats_as(parse_float, float_texts), computes_floats_as(float_op, floats)]
            reads_floats_as(parse_float, float_texts) && computes_floats_as(float_op, floats)
                ==> process_query_post(
                query@,
                old(storage)@,
                query_outcome_view(r),
                final(storage)@,
                float_texts,
                floats,
            ),
        !process_needs_floats(query@, old(storage)@) ==> process_query_post(
            query@,
            old(storage)@,
            query_outcome_view(r),
            final(storage)@,
            no_float_texts(),
            floats_unused(),
        ),
{
    let parsed = match parse(query, parse_float) {
        Ok(parsed) => parsed,
        Err(e) => {
            return Err(QueryError::ParseError(e));
        },
    };
    run_query(parsed, storage, float_op)
}

} // verus!
