//! The catalog table `all_tables`: one row for each table, kept by inserts and deletes.
use vstd::prelude::*;
use vstd::string::*;
use crate::common::db::{Column, ColumnView, DataType};
use crate::common::webserver_models::QueryResultView;
use crate::parser::expression_tree::{node_view, strings_view, Node, NodeView};
use crate::parser::expression_tree_eval::{
    computes_floats_as,
    float_op_total,
    floats_unused,
    FloatArithmetic,
    NodeValue,
    Number,
    NumberBinOp,
};
use crate::parser::lexer::{tokens_view, LexerToken, TokenView};
use crate::persistence::storage::Storage;
use crate::persistence::table::{
    decode_table_spec,
    rows_file_name,
    table_bytes,
    with_empty_indexes,
    Table,
    TableView,
};
use crate::transaction_control::errors::{QueryError, QueryErrorView};
use crate::transaction_control::queries::delete::{
    delete_post,
    deleted_message,
    process_delete_query,
};
use crate::transaction_control::queries::insert::{
    insert_post,
    inserted_message,
    process_insert_query,
};
use crate::transaction_control::utils::common::{
    condition_needs_floats,
    loaded_table,
    where_rows_spec,
};

verus! {

/// The name of the catalog table.
pub open spec fn info_table_name() -> Seq<char> {
    "all_tables"@
}

/// The catalog table: the name of each table, and the number of its columns.
pub open spec fn info_table() -> TableView {
    TableView {
        name: info_table_name(),
        columns: seq![
            ColumnView {
                name: "table_name"@,
                data_type: DataType::STRING { size: 256 },
                is_indexed: false,
            },
            ColumnView { name: "columns_count"@, data_type: DataType::INT, is_indexed: false },
        ],
    }
}

/// Whether the files hold a header of that name that states a table.
pub open spec fn header_loads(files: Map<Seq<char>, Seq<u8>>, name: Seq<char>) -> bool {
    files.contains_key(name) && decode_table_spec(files[name]) is Some
}

/// The error of an outcome, if it is one.
pub open spec fn failure_of<T>(r: Result<T, QueryErrorView>) -> Option<QueryErrorView> {
    match r {
        Ok(_) => None,
        Err(e) => Some(e),
    }
}

/// The outcome with the given error, or else with the given success.
pub open spec fn outcome_with(failure: Option<QueryErrorView>, success: QueryResultView) -> Result<
    QueryResultView,
    QueryErrorView,
> {
    match failure {
        Some(e) => Err(e),
        None => Ok(success),
    }
}

/// The view of an outcome without a value.
pub open spec fn unit_outcome_view(r: Result<(), QueryError>) -> Result<(), QueryErrorView> {
    match r {
        Ok(_) => Ok(()),
        Err(e) => Err(e@),
    }
}

/// The files with the catalog table created, where they do not hold it yet.
pub open spec fn with_info_table(files: Map<Seq<char>, Seq<u8>>) -> Map<Seq<char>, Seq<u8>> {
    if header_loads(files, info_table_name()) {
        files
    } else {
        files.insert(info_table_name(), table_bytes(info_table())).insert(
            rows_file_name(info_table_name()),
            Seq::empty(),
        )
    }
}

/// What adding a table to the catalog makes of the files, and whether it fails: the
/// catalog table is created where it is missing, and a row with the name of the table and
/// the number of its columns is inserted into it. A number of columns that is no 32-bit
/// integer is rejected.
pub open spec fn info_added(
    table_name: Seq<char>,
    cols_count: int,
    before: Map<Seq<char>, Seq<u8>>,
    failure: Option<QueryErrorView>,
    after: Map<Seq<char>, Seq<u8>>,
) -> bool {
    if cols_count > i32::MAX {
        failure == Some(QueryErrorView::InvalidDataType("columns_count"@, "INT"@, "FLOAT"@))
            && after == before
    } else {
        insert_post(
            seq![
                TokenView::StringLiteral(table_name),
                TokenView::NumberLiteral(cols_count as i32),
            ],
            info_table_name(),
            Seq::empty(),
            with_info_table(before),
            outcome_with(failure, QueryResultView { data: None, message: Some(inserted_message()) }),
            after,
        )
    }
}

/// The condition that selects the catalog row of a table: `table_name = '<name>'`.
pub open spec fn info_condition(table_name: Seq<char>) -> NodeView {
    NodeView::Binary {
        left: Box::new(NodeView::Leaf(TokenView::Identifier("table_name"@))),
        op: TokenView::CompareOp("="@),
        right: Box::new(NodeView::Leaf(TokenView::StringLiteral(table_name))),
    }
}

/// How many rows a condition selects in a table; zero where it selects none or fails.
pub open spec fn selected_count(
    table_name: Seq<char>,
    where_body: Option<NodeView>,
    files: Map<Seq<char>, Seq<u8>>,
    floats: FloatArithmetic,
) -> nat {
    match loaded_table(files, table_name) {
        None => 0,
        Some(table) => match where_rows_spec(table, files, where_body, floats) {
            Err(_) => 0,
            Ok(numbers) => numbers.len(),
        },
    }
}

/// What removing a table from the catalog makes of the files, and whether it fails: the
/// rows of the catalog that hold the name of the table are deleted.
pub open spec fn info_removed(
    table_name: Seq<char>,
    before: Map<Seq<char>, Seq<u8>>,
    failure: Option<QueryErrorView>,
    after: Map<Seq<char>, Seq<u8>>,
    floats: FloatArithmetic,
) -> bool {
    delete_post(
        info_table_name(),
        Some(info_condition(table_name)),
        before,
        outcome_with(
            failure,
            QueryResultView {
                data: None,
                message: Some(
                    deleted_message(
                        selected_count(
                            info_table_name(),
                            Some(info_condition(table_name)),
                            before,
                            floats,
                        ),
                        info_table_name(),
                    ),
                ),
            },
        ),
        after,
        floats,
    )
}

/// Creates the catalog table.
pub fn create_info_table(storage: &mut Storage) -> (r: Result<Table, QueryError>)
    requires
        old(storage).wf(),
    ensures
        final(storage).wf(),
        r matches Ok(table) && table@ == info_table(),
        final(storage)@ == old(storage)@.insert(info_table_name(), table_bytes(info_table())).insert(
            rows_file_name(info_table_name()),
            Seq::empty(),
        ),
{
    let mut columns: Vec<Column> = Vec::new();
    columns.push(
        Column {
            name: String::from_str("table_name"),
            data_type: DataType::STRING { size: 256 },
            is_indexed: false,
        },
    );
    columns.push(
        Column {
            name: String::from_str("columns_count"),
            data_type: DataType::INT,
            is_indexed: false,
        },
    );
    let table = Table { name: String::from_str("all_tables"), columns };
    assert(table@.columns =~= info_table().columns);
    let ghost base = storage@.insert(info_table_name(), table_bytes(info_table())).insert(
        rows_file_name(info_table_name()),
        Seq::empty(),
    );
    proof {
        assert(with_empty_indexes(info_table(), base, 0) == base);
        assert(with_empty_indexes(info_table(), base, 1) == base);
        assert(with_empty_indexes(info_table(), base, 2) == base);
    }
    match table.create(storage) {
        Ok(_) => Ok(table),
        Err(e) => Err(QueryError::Persistence(e)),
    }
}

/// Adds a table to the catalog.
pub fn add_to_info_table(table_name: String, cols_count: usize, storage: &mut Storage) -> (r:
    Result<(), QueryError>)
    requires
        old(storage).wf(),
    ensures
        final(storage).wf(),
        info_added(
            table_name@,
            cols_count as int,
            old(storage)@,
            failure_of(unit_outcome_view(r)),
            final(storage)@,
        ),
{
    if cols_count > 0x7fff_ffff {
        return Err(
            QueryError::InvalidDataType(
                String::from_str("columns_count"),
                String::from_str("INT"),
                String::from_str("FLOAT"),
            ),
        );
    }
    let table_exists = Table::load(storage, String::from_str("all_tables"));
    if table_exists.is_err() {
        match create_info_table(storage) {
            Ok(_) => {},
            Err(e) => {
                return Err(e);
            },
        }
    }
    let mut values: Vec<LexerToken> = Vec::new();
    values.push(LexerToken::StringLiteral(table_name));
    values.push(LexerToken::NumberLiteral(cols_count as i32));
    assert(tokens_view(values@) =~= seq![
        TokenView::StringLiteral(table_name@),
        TokenView::NumberLiteral(cols_count as i32),
    ]);
    let columns: Vec<String> = Vec::new();
    assert(strings_view(columns@) =~= Seq::<Seq<char>>::empty());
    match process_insert_query(values, String::from_str("all_tables"), columns, storage) {
        Ok(_) => Ok(()),
        Err(e) => Err(e),
    }
}

/// Removes a table from the catalog.
pub fn remove_from_info_table<A: Fn(NumberBinOp, Number, Number) -> NodeValue>(
    table_name: String,
    storage: &mut Storage,
    float_op: &A,
) -> (r: Result<(), QueryError>)
    requires
        old(storage).wf(),
        float_op_total(float_op),
    ensures
        final(storage).wf(),
        forall|floats: FloatArithmetic| #[trigger]
            computes_floats_as(float_op, floats) ==> info_removed(
                table_name@,
                old(storage)@,
                failure_of(unit_outcome_view(r)),
                final(storage)@,
                floats,
            ),
        !condition_needs_floats(
            info_table_name(),
            Some(info_condition(table_name@)),
            old(storage)@,
        ) ==> info_removed(
            table_name@,
            old(storage)@,
            failure_of(unit_outcome_view(r)),
            final(storage)@,
            floats_unused(),
        ),
{
    let condition = Node::new_binary(
        Node::Leaf(LexerToken::Identifier(String::from_str("table_name"))),
        LexerToken::CompareOp(String::from_str("=")),
        Node::Leaf(LexerToken::StringLiteral(table_name)),
    );
    assert(condition@ == info_condition(table_name@)) by {
        reveal_with_fuel(node_view, 3);
    }
    match process_delete_query(String::from_str("all_tables"), Some(condition), storage, float_op) {
        Ok(_) => Ok(()),
        Err(e) => Err(e),
    }
}

} // verus!
