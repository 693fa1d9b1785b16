//! `CREATE TABLE` and `DROP TABLE`.
use vstd::prelude::*;
use vstd::string::*;
use crate::common::db::{columns_view, Column, ColumnView, DataType};
use crate::common::webserver_models::{QueryResultData, QueryResultView};
use crate::parser::errors::{ParseError, ParseErrorView};
use crate::parser::expression_tree_eval::{
    computes_floats_as,
    float_op_total,
    floats_unused,
    FloatArithmetic,
    NodeValue,
    Number,
    NumberBinOp,
};
use crate::parser::lexer::{LexerToken, TokenView};
use crate::parser::query_parser::definitions_view;
use crate::persistence::errors::PersistenceErrors;
use crate::persistence::storage::Storage;
use crate::persistence::table::{
    decode_table_spec,
    drop_table,
    rows_file_name,
    table_bytes,
    with_empty_indexes,
    Table,
    TableView,
};
use crate::text::str_equal;
use crate::transaction_control::errors::{QueryError, QueryErrorView};
use crate::transaction_control::queries::select::{query_outcome_view, QueryResult};
use crate::transaction_control::utils::common::condition_needs_floats;
use crate::transaction_control::utils::db_info::{
    add_to_info_table,
    failure_of,
    header_loads,
    info_added,
    info_condition,
    info_removed,
    info_table_name,
    remove_from_info_table,
};

verus! {

/// The column type that a type name of the query language stands for.
pub open spec fn data_type_of_name(name: Seq<char>) -> Option<DataType> {
    if name == "varchar"@ {
        Some(DataType::STRING { size: 256 })
    } else if name == "int"@ {
        Some(DataType::INT)
    } else if name == "boolean"@ {
        Some(DataType::BOOLEAN)
    } else if name == "float"@ {
        Some(DataType::FLOAT)
    } else {
        None
    }
}

/// The column type that a type name of the query language stands for, if it is one.
pub fn from_string_to_data_type(data_type: String) -> (r: Option<DataType>)
    ensures
        r == data_type_of_name(data_type@),
{
    if str_equal(data_type.as_str(), "varchar") {
        Some(DataType::STRING { size: 256 })
    } else if str_equal(data_type.as_str(), "int") {
        Some(DataType::INT)
    } else if str_equal(data_type.as_str(), "boolean") {
        Some(DataType::BOOLEAN)
    } else if str_equal(data_type.as_str(), "float") {
        Some(DataType::FLOAT)
    } else {
        None
    }
}

/// The columns that the first `count` definitions state, none of them indexed; an unknown
/// type name is an error.
pub open spec fn columns_of_definitions(definitions: Seq<(Seq<char>, Seq<char>)>, count: int)
    -> Result<Seq<ColumnView>, QueryErrorView>
    decreases count,
{
    if count <= 0 {
        Ok(Seq::empty())
    } else {
        match columns_of_definitions(definitions, count - 1) {
            Err(e) => Err(e),
            Ok(columns) => match data_type_of_name(definitions[count - 1].1) {
                None => Err(
                    QueryErrorView::ParseError(
                        ParseErrorView::UnexpectedToken(
                            "data-type"@,
                            TokenView::DataType(definitions[count - 1].1),
                        ),
                    ),
                ),
                Some(data_type) => Ok(
                    columns.push(
                        ColumnView {
                            name: definitions[count - 1].0,
                            data_type,
                            is_indexed: false,
                        },
                    ),
                ),
            },
        }
    }
}

/// The message of a `CREATE TABLE`.
pub open spec fn table_created_message(table_name: Seq<char>) -> Seq<char> {
    "Table "@ + table_name + " created."@
}

/// The message of a `DROP TABLE`.
pub open spec fn table_dropped_message(table_name: Seq<char>) -> Seq<char> {
    "Table "@ + table_name + " dropped."@
}

/// What a `CREATE TABLE` makes of the files, and what it returns. A table whose header can
/// be loaded is not created again. Else the header and an empty row file are written, and
/// the table is added to the catalog.
pub open spec fn create_table_post(
    table_name: Seq<char>,
    definitions: Seq<(Seq<char>, Seq<char>)>,
    before: Map<Seq<char>, Seq<u8>>,
    r: Result<QueryResultView, QueryErrorView>,
    after: Map<Seq<char>, Seq<u8>>,
) -> bool {
    if header_loads(before, table_name) {
        r == Err::<QueryResultView, QueryErrorView>(QueryErrorView::TableAlreadyExists(table_name))
            && after == before
    } else {
        match columns_of_definitions(definitions, definitions.len() as int) {
            Err(e) => r == Err::<QueryResultView, QueryErrorView>(e) && after == before,
            Ok(columns) => {
                let table = TableView { name: table_name, columns };
                let created = before.insert(table_name, table_bytes(table)).insert(
                    rows_file_name(table_name),
                    Seq::empty(),
                );
                &&& info_added(table_name, columns.len() as int, created, failure_of(r), after)
                &&& r is Ok ==> r == Ok::<QueryResultView, QueryErrorView>(
                    QueryResultView {
                        data: None,
                        message: Some(table_created_message(table_name)),
                    },
                )
            },
        }
    }
}

/// What a `DROP TABLE` makes of the files, and what it returns: the files of the table are
/// removed, and then the table is removed from the catalog.
pub open spec fn drop_table_post(
    name: Seq<char>,
    before: Map<Seq<char>, Seq<u8>>,
    r: Result<QueryResultView, QueryErrorView>,
    after: Map<Seq<char>, Seq<u8>>,
    floats: FloatArithmetic,
) -> bool {
    if !header_loads(before, name) {
        r == Err::<QueryResultView, QueryErrorView>(
            QueryErrorView::Persistence(PersistenceErrors::TableLoading),
        ) && after == before
    } else {
        let table = decode_table_spec(before[name])->0;
        let dropped = drop_table(table, before);
        if !dropped.1 {
            r == Err::<QueryResultView, QueryErrorView>(
                QueryErrorView::Persistence(PersistenceErrors::TableDrop),
            ) && after == dropped.0
        } else {
            &&& info_removed(name, dropped.0, failure_of(r), after, floats)
            &&& r is Ok ==> r == Ok::<QueryResultView, QueryErrorView>(
                QueryResultView { data: None, message: Some(table_dropped_message(table.name)) },
            )
        }
    }
}

/// Whether a `DROP TABLE` may reach an operator on floats: removing the table from the
/// catalog may.
pub open spec fn drop_needs_floats(name: Seq<char>, files: Map<Seq<char>, Seq<u8>>) -> bool {
    &&& header_loads(files, name)
    &&& drop_table(decode_table_spec(files[name])->0, files).1
    &&& condition_needs_floats(
        info_table_name(),
        Some(info_condition(name)),
        drop_table(decode_table_spec(files[name])->0, files).0,
    )
}

proof fn lemma_definitions_error_stays(definitions: Seq<(Seq<char>, Seq<char>)>, k: int, n: int)
    requires
        0 <= k <= n,
        columns_of_definitions(definitions, k) is Err,
    ensures
        columns_of_definitions(definitions, n) == columns_of_definitions(definitions, k),
    decreases n - k,
{
    if k < n {
        lemma_definitions_error_stays(definitions, k, n - 1);
    }
}

proof fn lemma_no_index_files(table: TableView, files: Map<Seq<char>, Seq<u8>>, count: int)
    requires
        0 <= count <= table.columns.len(),
        forall|i: int| 0 <= i < table.columns.len() ==> !(#[trigger] table.columns[i]).is_indexed,
    ensures
        with_empty_indexes(table, files, count) == files,
    decreases count,
{
    if count > 0 {
        lemma_no_index_files(table, files, count - 1);
    }
}

/// Handles a `CREATE TABLE`.
#[verifier::loop_isolation(false)]
pub fn process_create_table_query(
    table_name: String,
    columns_definition: Vec<(String, String)>,
    storage: &mut Storage,
) -> (r: QueryResult)
    requires
        old(storage).wf(),
    ensures
        final(storage).wf(),
        create_table_post(
            table_name@,
            definitions_view(columns_definition@),
            old(storage)@,
            query_outcome_view(r),
            final(storage)@,
        ),
{
    if Table::load(storage, table_name.clone()).is_ok() {
        return Err(QueryError::TableAlreadyExists(table_name));
    }
    let ghost definitions = definitions_view(columns_definition@);
    let mut columns: Vec<Column> = Vec::new();
    let count = columns_definition.len();
    let mut k: usize = 0;
    assert(columns_view(columns@) =~= Seq::<ColumnView>::empty());
    while k < count
        invariant
            k <= count,
            columns_of_definitions(definitions, k as int) == Ok::<Seq<ColumnView>, QueryErrorView>(
                columns_view(columns@),
            ),
            forall|i: int| 0 <= i < columns@.len() ==> !(#[trigger] columns_view(columns@)[i]).is_indexed,
        decreases count - k,
    {
        let definition = &columns_definition[k];
        assert(definitions[k as int] == (definition.0@, definition.1@));
        let data_type = match from_string_to_data_type(definition.1.clone()) {
            Some(data_type) => data_type,
            None => {
                proof {
                    lemma_definitions_error_stays(definitions, k + 1, count as int);
                }
                return Err(
                    QueryError::ParseError(
                        ParseError::UnexpectedToken(
                            String::from_str("data-type"),
                            LexerToken::DataType(definition.1.clone()),
                        ),
                    ),
                );
            },
        };
        let ghost before = columns_view(columns@);
        let column = Column { name: definition.0.clone(), data_type, is_indexed: false };
        columns.push(column);
        assert(columns_view(columns@) =~= before.push(column@));
        k += 1;
    }
    let cols_length = columns.len();
    let table = Table { name: table_name.clone(), columns };
    proof {
        lemma_no_index_files(
            table@,
            old(storage)@.insert(table_name@, table_bytes(table@)).insert(
                rows_file_name(table_name@),
                Seq::empty(),
            ),
            table@.columns.len() as int,
        );
    }
    match table.create(storage) {
        Ok(_) => {},
        Err(e) => {
            return Err(QueryError::Persistence(e));
        },
    }
    match add_to_info_table(table_name, cols_length, storage) {
        Ok(_) => {},
        Err(e) => {
            return Err(e);
        },
    }
    let mut message = String::from_str("Table ");
    message.append(table.name.as_str());
    message.append(" created.");
    Ok(QueryResultData { data: None, message: Some(message) })
}

/// Handles a `DROP TABLE`.
pub fn process_drop_table_query<A: Fn(NumberBinOp, Number, Number) -> NodeValue>(
    name: String,
    storage: &mut Storage,
    float_op: &A,
) -> (r: QueryResult)
    requires
        old(storage).wf(),
        float_op_total(float_op),
    ensures
        final(storage).wf(),
        forall|floats: FloatArithmetic| #[trigger]
            computes_floats_as(float_op, floats) ==> drop_table_post(
                name@,
                old(storage)@,
                query_outcome_view(r),
                final(storage)@,
                floats,
            ),
        !drop_needs_floats(name@, old(storage)@) ==> drop_table_post(
            name@,
            old(storage)@,
            query_outcome_view(r),
            final(storage)@,
            floats_unused(),
        ),
{
    let table = match Table::load(storage, name.clone()) {
        Ok(table) => table,
        Err(e) => {
            return Err(QueryError::Persistence(e));
        },
    };
    match table.drop(storage) {
        Ok(_) => {},
        Err(e) => {
            return Err(QueryError::Persistence(e));
        },
    }
    match remove_from_info_table(name, storage, float_op) {
        Ok(_) => {},
        Err(e) => {
            return Err(e);
        },
    }
    let mut message = String::from_str("Table ");
    message.append(table.name.as_str());
    message.append(" dropped.");
    Ok(QueryResultData { data: None, message: Some(message) })
}

} // verus!
