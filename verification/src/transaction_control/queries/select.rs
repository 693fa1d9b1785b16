//! `SELECT`: the rows that a condition selects, projected on the columns asked for.
use vstd::prelude::*;
use vstd::pervasive::unreached;
use vstd::string::*;
use vstd::hash_map::StringHashMap;
use crate::common::db::{columns_view, Column, ColumnView, Data, DataType, DataView, Row};
use crate::common::webserver_models::{QueryResultData, QueryResultView, TableData, TableDataView};
use crate::parser::errors::{ParseError, ParseErrorView};
use crate::parser::expression_tree::{Node, NodeView};
use crate::parser::expression_tree_eval::{
    computes_floats_as,
    float_op_total,
    floats_unused,
    FloatArithmetic,
    NodeValue,
    Number,
    NumberBinOp,
};
use crate::parser::lexer::{tokens_view, LexerToken, TokenView};
use crate::parser::query_parser::tree_view;
use crate::persistence::errors::PersistenceErrors;
use crate::persistence::storage::Storage;
use crate::persistence::table::{rows_view, seek_row_spec, Table, TableView};
use crate::text::{decimal, usize_to_string};
use crate::transaction_control::errors::{QueryError, QueryErrorView};
use crate::transaction_control::utils::common::{
    condition_needs_floats,
    definition_map,
    get_columns_definition_map,
    get_rows_for_where_condition,
    lemma_definition_map,
    lemma_definition_map_has,
    load_table,
    loaded_table,
    where_rows_spec,
};

verus! {

/// The outcome of a query.
pub type QueryResult = Result<QueryResultData, QueryError>;

/// The view of the outcome of a query.
pub open spec fn query_outcome_view(r: QueryResult) -> Result<QueryResultView, QueryErrorView> {
    match r {
        Ok(data) => Ok(data@),
        Err(e) => Err(e@),
    }
}

/// The columns that the first `count` tokens of a `SELECT` body ask for: an identifier asks
/// for the column of that name, shown as not indexed; `*` asks for every column of the
/// table, as the table has it. Nothing else can be selected.
pub open spec fn projection_columns_spec(
    body: Seq<TokenView>,
    table_name: Seq<char>,
    columns: Seq<ColumnView>,
    count: int,
) -> Result<Seq<ColumnView>, QueryErrorView>
    decreases count,
{
    if count <= 0 {
        Ok(Seq::empty())
    } else {
        match projection_columns_spec(body, table_name, columns, count - 1) {
            Err(e) => Err(e),
            Ok(selected) => match body[count - 1] {
                TokenView::Identifier(column) => if !definition_map(columns).contains_key(column) {
                    Err(QueryErrorView::ColumnNotExists(column, table_name))
                } else {
                    Ok(
                        selected.push(
                            ColumnView {
                                name: column,
                                data_type: definition_map(columns)[column].1,
                                is_indexed: false,
                            },
                        ),
                    )
                },
                TokenView::Star => Ok(selected + columns),
                token => Err(
                    QueryErrorView::ParseError(
                        ParseErrorView::UnexpectedToken("column name or *"@, token),
                    ),
                ),
            },
        }
    }
}

/// A row projected on the selected columns: for each of them the value of the table's
/// column of that name.
pub open spec fn project_row_spec(
    row: Seq<DataView>,
    selected: Seq<ColumnView>,
    columns: Seq<ColumnView>,
) -> Seq<DataView> {
    Seq::new(
        selected.len(),
        |i: int| row[definition_map(columns)[selected[i].name].0 as int],
    )
}

/// The rows at the first `count` of the given positions of the row file.
pub open spec fn sought_rows_spec(
    table: TableView,
    files: Map<Seq<char>, Seq<u8>>,
    numbers: Seq<u64>,
    count: int,
) -> Result<Seq<Seq<DataView>>, QueryErrorView>
    decreases count,
{
    if count <= 0 {
        Ok(Seq::empty())
    } else {
        match sought_rows_spec(table, files, numbers, count - 1) {
            Err(e) => Err(e),
            Ok(rows) => match seek_row_spec(table, files, numbers[count - 1] as int) {
                None => Err(QueryErrorView::Persistence(PersistenceErrors::RowSeeking)),
                Some(row) => Ok(rows.push(row)),
            },
        }
    }
}

/// The message of a `SELECT` that retrieved `count` rows.
pub open spec fn retrieved_message(count: nat, table_name: Seq<char>) -> Seq<char> {
    "Retrieved "@ + decimal(count) + " rows from table "@ + table_name + "."@
}

/// What a `SELECT` returns: the rows that the condition selects, in the order of the row
/// file or of the index bucket, each projected on the columns that the body asks for.
pub open spec fn select_spec(
    body: Seq<TokenView>,
    table_name: Seq<char>,
    where_body: Option<NodeView>,
    files: Map<Seq<char>, Seq<u8>>,
    floats: FloatArithmetic,
) -> Result<QueryResultView, QueryErrorView> {
    match loaded_table(files, table_name) {
        None => Err(QueryErrorView::Persistence(PersistenceErrors::TableLoading)),
        Some(table) => match where_rows_spec(table, files, where_body, floats) {
            Err(e) => Err(e),
            Ok(numbers) => match sought_rows_spec(table, files, numbers, numbers.len() as int) {
                Err(e) => Err(e),
                Ok(rows) => match projection_columns_spec(
                    body,
                    table_name,
                    table.columns,
                    body.len() as int,
                ) {
                    Err(e) => Err(e),
                    Ok(selected) => Ok(
                        QueryResultView {
                            data: Some(
                                TableDataView {
                                    columns: selected,
                                    rows: rows.map_values(
                                        |row: Seq<DataView>|
                                            project_row_spec(row, selected, table.columns),
                                    ),
                                },
                            ),
                            message: Some(retrieved_message(rows.len(), table_name)),
                        },
                    ),
                },
            },
        },
    }
}

/// Whether every selected column is a column of the table.
pub open spec fn all_known(selected: Seq<ColumnView>, columns: Seq<ColumnView>) -> bool {
    forall|i: int|
        0 <= i < selected.len() ==> definition_map(columns).contains_key(
            (#[trigger] selected[i]).name,
        )
}

proof fn lemma_projection_error_stays(
    body: Seq<TokenView>,
    table_name: Seq<char>,
    columns: Seq<ColumnView>,
    k: int,
    n: int,
)
    requires
        0 <= k <= n,
        projection_columns_spec(body, table_name, columns, k) is Err,
    ensures
        projection_columns_spec(body, table_name, columns, n) == projection_columns_spec(
            body,
            table_name,
            columns,
            k,
        ),
    decreases n - k,
{
    if k < n {
        lemma_projection_error_stays(body, table_name, columns, k, n - 1);
    }
}

proof fn lemma_sought_error_stays(
    table: TableView,
    files: Map<Seq<char>, Seq<u8>>,
    numbers: Seq<u64>,
    k: int,
    n: int,
)
    requires
        0 <= k <= n,
        sought_rows_spec(table, files, numbers, k) is Err,
    ensures
        sought_rows_spec(table, files, numbers, n) == sought_rows_spec(table, files, numbers, k),
    decreases n - k,
{
    if k < n {
        lemma_sought_error_stays(table, files, numbers, k, n - 1);
    }
}

/// The view of a list of columns or the error in its place.
pub open spec fn columns_result_view(r: Result<Vec<Column>, QueryError>) -> Result<
    Seq<ColumnView>,
    QueryErrorView,
> {
    match r {
        Ok(columns) => Ok(columns_view(columns@)),
        Err(e) => Err(e@),
    }
}

/// The columns that a `SELECT` body asks for.
#[verifier::loop_isolation(false)]
pub fn get_projection_columns(
    body: Vec<LexerToken>,
    table_name: String,
    table: Table,
    columns_def_map: &StringHashMap<(usize, DataType)>,
) -> (r: Result<Vec<Column>, QueryError>)
    requires
        columns_def_map@ == definition_map(table@.columns),
    ensures
        columns_result_view(r) == projection_columns_spec(
            tokens_view(body@),
            table_name@,
            table@.columns,
            body@.len() as int,
        ),
        r matches Ok(selected) ==> all_known(columns_view(selected@), table@.columns),
{
    let mut columns: Vec<Column> = Vec::new();
    let count = body.len();
    let ghost tokens = tokens_view(body@);
    let ghost cols = table@.columns;
    let mut k: usize = 0;
    assert(columns_view(columns@) =~= Seq::<ColumnView>::empty());
    while k < count
        invariant
            k <= count,
            projection_columns_spec(tokens, table_name@, cols, k as int) == Ok::<
                Seq<ColumnView>,
                QueryErrorView,
            >(columns_view(columns@)),
            all_known(columns_view(columns@), cols),
        decreases count - k,
    {
        let token = &body[k];
        assert(tokens[k as int] == token@);
        let ghost before = columns_view(columns@);
        match token {
            LexerToken::Identifier(column) => {
                let data_type = match columns_def_map.get(column.as_str()) {
                    Some(entry) => entry.1,
                    None => {
                        proof {
                            lemma_projection_error_stays(
                                tokens,
                                table_name@,
                                cols,
                                k + 1,
                                count as int,
                            );
                        }
                        return Err(QueryError::ColumnNotExists(column.clone(), table_name));
                    },
                };
                let column = Column { name: column.clone(), data_type, is_indexed: false };
                columns.push(column);
                assert(columns_view(columns@) =~= before.push(column@));
            },
            LexerToken::Star => {
                let width = table.columns.len();
                let mut i: usize = 0;
                while i < width
                    invariant
                        i <= width,
                        columns_view(columns@) == before + cols.subrange(0, i as int),
                    decreases width - i,
                {
                    let column = table.columns[i].clone();
                    assert(cols[i as int] == column@);
                    let ghost earlier = columns_view(columns@);
                    columns.push(column);
                    assert(columns_view(columns@) =~= earlier.push(column@));
                    assert(columns_view(columns@) =~= before + cols.subrange(0, i + 1));
                    i += 1;
                }
                assert(cols.subrange(0, width as int) =~= cols);
                proof {
                    let after = columns_view(columns@);
                    assert forall|j: int| 0 <= j < after.len() implies definition_map(
                        cols,
                    ).contains_key((#[trigger] after[j]).name) by {
                        if j < before.len() {
                            assert(after[j] == before[j]);
                        } else {
                            assert(after[j] == cols[j - before.len()]);
                            lemma_definition_map_has(cols, cols.len() as int, j - before.len());
                        }
                    }
                }
            },
            _ => {
                proof {
                    lemma_projection_error_stays(tokens, table_name@, cols, k + 1, count as int);
                }
                return Err(
                    QueryError::ParseError(
                        ParseError::UnexpectedToken(
                            String::from_str("column name or *"),
                            token.clone(),
                        ),
                    ),
                );
            },
        }
        k += 1;
    }
    Ok(columns)
}

/// Whether the map knows every selected column, at a position that the row has.
pub open spec fn projects_within(
    selected: Seq<ColumnView>,
    positions: Map<Seq<char>, (usize, DataType)>,
    width: nat,
) -> bool {
    forall|i: int|
        0 <= i < selected.len() ==> positions.contains_key((#[trigger] selected[i]).name)
            && positions[selected[i].name].0 < width
}

/// Projects a row of the table on the selected columns. The map gives each selected
/// column a position that the row has.
pub fn project_row(
    row: Row,
    columns_res: &Vec<Column>,
    columns_def_map: &StringHashMap<(usize, DataType)>,
) -> (r: Row)
    requires
        projects_within(columns_view(columns_res@), columns_def_map@, row@.len()),
    ensures
        r@ == Seq::new(
            columns_res@.len(),
            |i: int| row@[columns_def_map@[columns_view(columns_res@)[i].name].0 as int],
        ),
{
    let mut row_projection: Vec<Data> = Vec::new();
    let count = columns_res.len();
    let ghost selected = columns_view(columns_res@);
    let mut k: usize = 0;
    while k < count
        invariant
            count == columns_res@.len(),
            selected == columns_view(columns_res@),
            projects_within(selected, columns_def_map@, row@.len()),
            k <= count,
            row_projection@.len() == k,
            forall|i: int|
                0 <= i < k ==> (#[trigger] row_projection@[i])@
                    == row@[columns_def_map@[selected[i].name].0 as int],
        decreases count - k,
    {
        let column = &columns_res[k];
        assert(selected[k as int] == column@);
        let index = match columns_def_map.get(column.name.as_str()) {
            Some(entry) => entry.0,
            None => unreached(),
        };
        let value = row.values[index].clone();
        assert(value@ == row@[index as int]);
        row_projection.push(value);
        k += 1;
    }
    let projected = Row { values: row_projection };
    assert(projected@ =~= Seq::new(
        columns_res@.len(),
        |i: int| row@[columns_def_map@[selected[i].name].0 as int],
    ));
    projected
}

/// Handles a `SELECT`.
#[verifier::loop_isolation(false)]
pub fn process_select_query<A: Fn(NumberBinOp, Number, Number) -> NodeValue>(
    body: Vec<LexerToken>,
    table_name: String,
    where_body: Option<Node>,
    storage: &Storage,
    float_op: &A,
) -> (r: QueryResult)
    requires
        storage.wf(),
        float_op_total(float_op),
    ensures
        forall|floats: FloatArithmetic| #[trigger]
            computes_floats_as(float_op, floats) ==> query_outcome_view(r) == select_spec(
                tokens_view(body@),
                table_name@,
                tree_view(where_body),
                storage@,
                floats,
            ),
        !condition_needs_floats(table_name@, tree_view(where_body), storage@)
            ==> query_outcome_view(r) == select_spec(
            tokens_view(body@),
            table_name@,
            tree_view(where_body),
            storage@,
            floats_unused(),
        ),
{
    let table = match load_table(storage, table_name.clone()) {
        Ok(table) => table,
        Err(e) => {
            return Err(e);
        },
    };
    let columns_def_map = get_columns_definition_map(&table);
    let rows_numbers = match get_rows_for_where_condition(&table, storage, where_body, float_op) {
        Ok(numbers) => numbers,
        Err(e) => {
            return Err(e);
        },
    };
    let ghost files = storage@;
    let mut rows: Vec<Row> = Vec::new();
    let count = rows_numbers.len();
    let mut k: usize = 0;
    assert(rows_view(rows@) =~= Seq::<Seq<DataView>>::empty());
    while k < count
        invariant
            k <= count,
            sought_rows_spec(table@, files, rows_numbers@, k as int) == Ok::<
                Seq<Seq<DataView>>,
                QueryErrorView,
            >(rows_view(rows@)),
            forall|i: int| 0 <= i < rows@.len() ==> (#[trigger] rows@[i])@.len() == table@.columns.len(),
        decreases count - k,
    {
        let row = match table.seek_row(storage, rows_numbers[k]) {
            Ok(row) => row,
            Err(e) => {
                proof {
                    lemma_sought_error_stays(table@, files, rows_numbers@, k + 1, count as int);
                }
                return Err(QueryError::Persistence(e));
            },
        };
        let ghost before = rows_view(rows@);
        rows.push(row);
        assert(rows_view(rows@) =~= before.push(row@));
        k += 1;
    }
    let ghost sought = rows_view(rows@);
    let ghost table_view = table@;
    let columns = match get_projection_columns(
        body,
        table_name.clone(),
        copy_table(&table),
        &columns_def_map,
    ) {
        Ok(columns) => columns,
        Err(e) => {
            return Err(e);
        },
    };
    let ghost selected = columns_view(columns@);
    let rows_count = rows.len();
    let mut projected: Vec<Row> = Vec::new();
    let mut i: usize = 0;
    while i < rows_count
        invariant
            i <= rows_count,
            projected@.len() == i,
            forall|j: int|
                0 <= j < i ==> (#[trigger] projected@[j])@ == project_row_spec(
                    sought[j],
                    selected,
                    table_view.columns,
                ),
        decreases rows_count - i,
    {
        let source = &rows[i];
        assert(sought[i as int] == source@);
        proof {
            assert forall|c: int| 0 <= c < selected.len() implies columns_def_map@.contains_key(
                (#[trigger] selected[c]).name,
            ) && columns_def_map@[selected[c].name].0 < source@.len() by {
                assert(table_view.columns.len() == table.columns.len());
                lemma_definition_map(
                    table_view.columns,
                    table_view.columns.len() as int,
                    selected[c].name,
                );
            }
        }
        let row = project_row(copy_row(source), &columns, &columns_def_map);
        assert(row@ =~= project_row_spec(sought[i as int], selected, table_view.columns));
        projected.push(row);
        i += 1;
    }
    let mut message = String::from_str("Retrieved ");
    message.append(usize_to_string(rows_count).as_str());
    message.append(" rows from table ");
    message.append(table_name.as_str());
    message.append(".");
    let data = TableData { columns, rows: projected };
    proof {
        assert(data@.rows =~= sought.map_values(
            |row: Seq<DataView>| project_row_spec(row, selected, table_view.columns),
        ));
    }
    Ok(QueryResultData { data: Some(data), message: Some(message) })
}

/// A copy of a table.
pub fn copy_table(table: &Table) -> (r: Table)
    ensures
        r@ == table@,
{
    let mut columns: Vec<Column> = Vec::new();
    let count = table.columns.len();
    let mut k: usize = 0;
    while k < count
        invariant
            count == table.columns@.len(),
            k <= count,
            columns@.len() == k,
            forall|i: int| 0 <= i < k ==> columns@[i] == table.columns@[i],
        decreases count - k,
    {
        columns.push(table.columns[k].clone());
        k += 1;
    }
    let r = Table { name: table.name.clone(), columns };
    assert(columns_view(r.columns@) =~= columns_view(table.columns@));
    r
}

/// A copy of a row.
pub fn copy_row(row: &Row) -> (r: Row)
    ensures
        r@ == row@,
{
    let mut values: Vec<Data> = Vec::new();
    let count = row.values.len();
    let mut k: usize = 0;
    while k < count
        invariant
            count == row.values@.len(),
            k <= count,
            values@.len() == k,
            forall|i: int| 0 <= i < k ==> values@[i] == row.values@[i],
        decreases count - k,
    {
        values.push(row.values[k].clone());
        k += 1;
    }
    let r = Row { values };
    assert(r@ =~= row@);
    r
}

} // verus!
