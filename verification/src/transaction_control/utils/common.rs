//! Which rows a condition selects, with the help of an index where one fits.
use vstd::prelude::*;
use vstd::pervasive::unreached;
use vstd::string::*;
use vstd::hash_map::StringHashMap;
use crate::common::db::{columns_view, Column, ColumnView, Data, DataType, DataView, Row};
use crate::parser::errors::{ParseError, ParseErrorView};
use crate::parser::expression_tree::{strings_view, Node, NodeView};
use crate::parser::expression_tree_eval::{
    computes_floats_as,
    env_view,
    eval_condition_spec,
    eval_spec,
    evaluate_binary_node,
    evaluate_node,
    float_op_total,
    floats_unused,
    needs_floats,
    FloatArithmetic,
    NodeValue,
    Number,
    NumberBinOp,
    ValueView,
};
use crate::parser::lexer::{LexerToken, TokenView};
use crate::parser::query_parser::tree_view;
use crate::persistence::errors::PersistenceErrors;
use crate::persistence::index::{decode_index_spec, entries_view};
use crate::persistence::row::{data_hash, row_size, PersistenceData};
use crate::persistence::storage::Storage;
use crate::persistence::table::{
    bucket_values,
    decode_table_spec,
    entries_with_value,
    index_of_rows,
    law_index_finds_rows_with_value,
    rows_with_value,
    index_file_name,
    rows_fit,
    rows_view,
    stored_rows,
    Table,
    TableView,
};
use crate::text::str_equal;
use crate::transaction_control::errors::{QueryError, QueryErrorView};

verus! {

/// Where each column name stands among the first `count` columns, and the type of that
/// column. Of two columns with one name the later one counts.
pub open spec fn definition_map_prefix(columns: Seq<ColumnView>, count: int) -> Map<
    Seq<char>,
    (usize, DataType),
>
    decreases count,
{
    if count <= 0 {
        Map::empty()
    } else {
        definition_map_prefix(columns, count - 1).insert(
            columns[count - 1].name,
            ((count - 1) as usize, columns[count - 1].data_type),
        )
    }
}

/// Where each column name stands in the table, and the type of that column.
pub open spec fn definition_map(columns: Seq<ColumnView>) -> Map<Seq<char>, (usize, DataType)> {
    definition_map_prefix(columns, columns.len() as int)
}

/// Each name in the map of the first `count` columns is the name of the column at the
/// position that the map gives, and has that column's type.
pub proof fn lemma_definition_map(columns: Seq<ColumnView>, count: int, name: Seq<char>)
    requires
        0 <= count <= columns.len(),
        columns.len() <= usize::MAX,
        definition_map_prefix(columns, count).contains_key(name),
    ensures
        ({
            let entry = definition_map_prefix(columns, count)[name];
            &&& 0 <= entry.0 < count
            &&& columns[entry.0 as int].name == name
            &&& columns[entry.0 as int].data_type == entry.1
        }),
    decreases count,
{
    if count > 0 && columns[count - 1].name != name {
        lemma_definition_map(columns, count - 1, name);
    }
}

/// The name of each of the first `count` columns is in their map.
pub proof fn lemma_definition_map_has(columns: Seq<ColumnView>, count: int, i: int)
    requires
        0 <= i < count <= columns.len(),
    ensures
        definition_map_prefix(columns, count).contains_key(columns[i].name),
    decreases count,
{
    if i < count - 1 {
        lemma_definition_map_has(columns, count - 1, i);
    }
}

/// Maps each column name of the table to the position and the type of the column.
pub fn get_columns_definition_map(table: &Table) -> (r: StringHashMap<(usize, DataType)>)
    ensures
        r@ == definition_map(table@.columns),
{
    let mut map: StringHashMap<(usize, DataType)> = StringHashMap::new();
    let count = table.columns.len();
    let ghost cols = columns_view(table.columns@);
    let mut k: usize = 0;
    assert(map@ =~= definition_map_prefix(cols, 0));
    while k < count
        invariant
            count == table.columns@.len(),
            cols == columns_view(table.columns@),
            k <= count,
            map@ == definition_map_prefix(cols, k as int),
        decreases count - k,
    {
        let column = &table.columns[k];
        assert(cols[k as int] == column@);
        map.insert(column.name.clone(), (k, column.data_type));
        k += 1;
    }
    map
}

/// The table of the given name that the files hold, if its header file exists and states a
/// table whose rows are not wider than a machine word can say.
pub open spec fn loaded_table(files: Map<Seq<char>, Seq<u8>>, name: Seq<char>) -> Option<
    TableView,
> {
    if !files.contains_key(name) {
        None
    } else {
        match decode_table_spec(files[name]) {
            None => None,
            Some(table) => if row_size(table.columns) <= usize::MAX {
                Some(table)
            } else {
                None
            },
        }
    }
}

/// Loads the table of the given name for a query.
pub fn load_table(storage: &Storage, name: String) -> (r: Result<Table, QueryError>)
    requires
        storage.wf(),
    ensures
        match r {
            Ok(table) => loaded_table(storage@, name@) == Some(table@) && table.row_size_fits(),
            Err(e) => e@ == QueryErrorView::Persistence(PersistenceErrors::TableLoading)
                && loaded_table(storage@, name@) is None,
        },
{
    match Table::load(storage, name) {
        Ok(table) => {
            if table.check_row_size() {
                Ok(table)
            } else {
                Err(QueryError::Persistence(PersistenceErrors::TableLoading))
            }
        },
        Err(e) => Err(QueryError::Persistence(e)),
    }
}

/// The cell value that an expression value stands for.
pub open spec fn value_to_data(value: ValueView) -> DataView {
    match value {
        ValueView::Int(number) => DataView::INT(number),
        ValueView::String(string) => DataView::STRING(string),
        ValueView::Bool(b) => DataView::BOOLEAN(b),
        ValueView::Float(float) => DataView::FLOAT(float),
        ValueView::Null => DataView::NULL,
    }
}

/// The expression value that a cell value stands for.
pub open spec fn data_to_value(data: DataView) -> ValueView {
    match data {
        DataView::INT(number) => ValueView::Int(number),
        DataView::STRING(string) => ValueView::String(string),
        DataView::NULL => ValueView::Null,
        DataView::BOOLEAN(b) => ValueView::Bool(b),
        DataView::FLOAT(float) => ValueView::Float(float),
    }
}

/// The values of the identifiers for one row: each of the first `count` values under the
/// name of its column. Of two columns with one name the later one counts.
pub open spec fn row_env(row: Seq<DataView>, columns: Seq<ColumnView>, count: int) -> Map<
    Seq<char>,
    ValueView,
>
    decreases count,
{
    if count <= 0 {
        Map::empty()
    } else {
        row_env(row, columns, count - 1).insert(
            columns[count - 1].name,
            data_to_value(row[count - 1]),
        )
    }
}

/// The view of a truth value or the error in its place.
pub open spec fn predicate_result_view(r: Result<bool, QueryError>) -> Result<bool, QueryErrorView> {
    match r {
        Ok(b) => Ok(b),
        Err(e) => Err(e@),
    }
}

/// Whether a row meets a condition: the truth of the condition over the values of the row,
/// NULL counting as false.
pub open spec fn row_predicate_spec(
    row: Seq<DataView>,
    columns: Seq<ColumnView>,
    node: NodeView,
    floats: FloatArithmetic,
) -> Result<bool, QueryErrorView> {
    match eval_condition_spec(node, row_env(row, columns, row.len() as int), floats) {
        Ok(b) => Ok(b),
        Err(e) => Err(QueryErrorView::ParseError(e)),
    }
}

/// Decides whether a row of the table meets a condition. The row has no more values than
/// the table has columns.
pub fn apply_row_predicate<A: Fn(NumberBinOp, Number, Number) -> NodeValue>(
    db_row: &Row,
    table: &Table,
    query_node: &Node,
    float_op: &A,
) -> (r: Result<bool, QueryError>)
    requires
        float_op_total(float_op),
        db_row@.len() <= table@.columns.len(),
    ensures
        forall|floats: FloatArithmetic| #[trigger]
            computes_floats_as(float_op, floats) ==> predicate_result_view(r)
                == row_predicate_spec(db_row@, table@.columns, query_node@, floats),
        !needs_floats(query_node@, row_env(db_row@, table@.columns, db_row@.len() as int))
            ==> predicate_result_view(r) == row_predicate_spec(
            db_row@,
            table@.columns,
            query_node@,
            floats_unused(),
        ),
{
    let mut identifier_map: StringHashMap<NodeValue> = StringHashMap::new();
    let count = db_row.values.len();
    let ghost cols = columns_view(table.columns@);
    let mut i: usize = 0;
    assert(env_view(identifier_map@) =~= row_env(db_row@, cols, 0));
    while i < count
        invariant
            count == db_row.values@.len(),
            count <= table.columns@.len(),
            cols == columns_view(table.columns@),
            i <= count,
            env_view(identifier_map@) == row_env(db_row@, cols, i as int),
        decreases count - i,
    {
        let column = &table.columns[i];
        assert(cols[i as int] == column@);
        let data_cell = &db_row.values[i];
        assert(db_row@[i as int] == data_cell@);
        let data_value = match data_cell {
            Data::INT(number) => NodeValue::Int(*number),
            Data::STRING(string) => NodeValue::String(string.clone()),
            Data::NULL => NodeValue::Null,
            Data::BOOLEAN(b) => NodeValue::Bool(*b),
            Data::FLOAT(float) => NodeValue::Float(*float),
        };
        let ghost before = identifier_map@;
        identifier_map.insert(column.name.clone(), data_value);
        assert(env_view(identifier_map@) =~= env_view(before).insert(column.name@, data_value@));
        i += 1;
    }
    match evaluate_binary_node(query_node, &identifier_map, float_op) {
        Ok(b) => Ok(b),
        Err(e) => Err(QueryError::ParseError(e)),
    }
}

/// The view of a cell value or the error in its place.
pub open spec fn data_result_view(r: Result<Data, QueryError>) -> Result<DataView, QueryErrorView> {
    match r {
        Ok(data) => Ok(data@),
        Err(e) => Err(e@),
    }
}

/// The cell value of a constant expression: its value where no identifier has a value.
pub open spec fn data_from_node_spec(node: NodeView, floats: FloatArithmetic) -> Result<
    DataView,
    QueryErrorView,
> {
    match eval_spec(node, Map::empty(), floats) {
        Ok(value) => Ok(value_to_data(value)),
        Err(e) => Err(QueryErrorView::ParseError(e)),
    }
}

/// Evaluates a constant expression to a cell value.
pub fn data_from_node<A: Fn(NumberBinOp, Number, Number) -> NodeValue>(
    node: &Node,
    float_op: &A,
) -> (r: Result<Data, QueryError>)
    requires
        float_op_total(float_op),
    ensures
        forall|floats: FloatArithmetic| #[trigger]
            computes_floats_as(float_op, floats) ==> data_result_view(r) == data_from_node_spec(
                node@,
                floats,
            ),
        !needs_floats(node@, Map::empty()) ==> data_result_view(r) == data_from_node_spec(
            node@,
            floats_unused(),
        ),
{
    let empty: StringHashMap<NodeValue> = StringHashMap::new();
    assert(env_view(empty@) =~= Map::<Seq<char>, ValueView>::empty());
    let node_value = match evaluate_node(node, &empty, float_op) {
        Ok(value) => value,
        Err(e) => {
            return Err(QueryError::ParseError(e));
        },
    };
    Ok(
        match node_value {
            NodeValue::Int(number) => Data::INT(number),
            NodeValue::String(string) => Data::STRING(string),
            NodeValue::Bool(b) => Data::BOOLEAN(b),
            NodeValue::Float(float) => Data::FLOAT(float),
            NodeValue::Null => Data::NULL,
        },
    )
}

/// The first of the names, from position `from` on, that no column has, if there is one.
pub open spec fn first_unknown(names: Seq<Seq<char>>, columns: Seq<ColumnView>, from: int)
    -> Option<Seq<char>>
    decreases names.len() - from,
{
    if from < 0 || from >= names.len() {
        None
    } else if !definition_map(columns).contains_key(names[from]) {
        Some(names[from])
    } else {
        first_unknown(names, columns, from + 1)
    }
}

/// Whether the condition is an equality at its top.
pub open spec fn is_equality(node: NodeView) -> bool {
    node matches NodeView::Binary { op, .. } && op == TokenView::CompareOp("="@)
}

/// The right operand of a binary node.
pub open spec fn right_operand(node: NodeView) -> NodeView {
    match node {
        NodeView::Binary { right, .. } => *right,
        _ => node,
    }
}

/// Whether an index answers the condition: the condition is an equality at its top, names
/// one column once, and that column is indexed.
pub open spec fn uses_index(columns: Seq<ColumnView>, node: NodeView) -> bool {
    &&& is_equality(node)
    &&& node.identifiers().len() == 1
    &&& columns[definition_map(columns)[node.identifiers()[0]].0 as int].is_indexed
}

/// The numbers of those among the first `count` rows that meet the condition, or the error
/// of the first row for which the condition has no truth value.
pub open spec fn filter_rows_spec(
    rows: Seq<Seq<DataView>>,
    columns: Seq<ColumnView>,
    node: NodeView,
    floats: FloatArithmetic,
    count: int,
) -> Result<Seq<u64>, QueryErrorView>
    decreases count,
{
    if count <= 0 {
        Ok(Seq::empty())
    } else {
        match filter_rows_spec(rows, columns, node, floats, count - 1) {
            Err(e) => Err(e),
            Ok(kept) => match row_predicate_spec(rows[count - 1], columns, node, floats) {
                Err(e) => Err(e),
                Ok(true) => Ok(kept.push((count - 1) as u64)),
                Ok(false) => Ok(kept),
            },
        }
    }
}

/// The rows that the index file of a column gives for the value of a constant expression:
/// the entries of the value's bucket that hold an equal value.
pub open spec fn index_lookup_spec(
    table_name: Seq<char>,
    column: ColumnView,
    files: Map<Seq<char>, Seq<u8>>,
    right: NodeView,
    floats: FloatArithmetic,
) -> Result<Seq<u64>, QueryErrorView> {
    let file = index_file_name(table_name, column.name);
    if !files.contains_key(file) || decode_index_spec(files[file], column.data_type) is None {
        Err(QueryErrorView::Persistence(PersistenceErrors::IndexLoading))
    } else {
        let index = decode_index_spec(files[file], column.data_type)->0;
        match data_from_node_spec(right, floats) {
            Err(e) => Err(e),
            Ok(value) => {
                let entries = bucket_values(index, data_hash(value));
                Ok(entries_with_value(entries, value, entries.len() as int))
            },
        }
    }
}

/// The rows that the index of the condition's column gives for the value on the right of
/// the equality.
pub open spec fn index_rows_spec(
    table: TableView,
    files: Map<Seq<char>, Seq<u8>>,
    node: NodeView,
    floats: FloatArithmetic,
) -> Result<Seq<u64>, QueryErrorView> {
    index_lookup_spec(
        table.name,
        table.columns[definition_map(table.columns)[node.identifiers()[0]].0 as int],
        files,
        right_operand(node),
        floats,
    )
}

/// Whether finding the rows that a condition selects may reach an operator on floats: the
/// evaluation of the condition does for some row, or the evaluation of its right operand
/// as a constant does.
pub open spec fn where_needs_floats(
    table: TableView,
    files: Map<Seq<char>, Seq<u8>>,
    where_body: Option<NodeView>,
) -> bool {
    match where_body {
        None => false,
        Some(node) => needs_floats(right_operand(node), Map::empty()) || match stored_rows(
            table,
            files,
        ) {
            None => false,
            Some(rows) => exists|k: int|
                0 <= k < rows.len() && #[trigger] needs_floats(
                    node,
                    row_env(rows[k], table.columns, rows[k].len() as int),
                ),
        },
    }
}

/// Whether a condition on the table of the given name may reach an operator on floats.
pub open spec fn condition_needs_floats(
    table_name: Seq<char>,
    where_body: Option<NodeView>,
    files: Map<Seq<char>, Seq<u8>>,
) -> bool {
    match loaded_table(files, table_name) {
        None => false,
        Some(table) => where_needs_floats(table, files, where_body),
    }
}

/// The numbers from zero up to `count`.
pub open spec fn all_row_numbers(count: int) -> Seq<u64> {
    Seq::new(count as nat, |i: int| i as u64)
}

/// The numbers of the rows that a condition selects. Without a condition every row is
/// selected. Every identifier of the condition must be a column. An equality on one
/// indexed column is answered from the index of that column; any other condition is tried
/// on every row, and a row is selected where the condition is true.
pub open spec fn where_rows_spec(
    table: TableView,
    files: Map<Seq<char>, Seq<u8>>,
    where_body: Option<NodeView>,
    floats: FloatArithmetic,
) -> Result<Seq<u64>, QueryErrorView> {
    match stored_rows(table, files) {
        None => Err(QueryErrorView::Persistence(PersistenceErrors::TableLoading)),
        Some(rows) => match where_body {
            None => Ok(all_row_numbers(rows.len() as int)),
            Some(node) => match first_unknown(node.identifiers(), table.columns, 0) {
                Some(identifier) => Err(QueryErrorView::ColumnNotExists(identifier, table.name)),
                None => if uses_index(table.columns, node) {
                    index_rows_spec(table, files, node, floats)
                } else {
                    filter_rows_spec(rows, table.columns, node, floats, rows.len() as int)
                },
            },
        },
    }
}

/// The view of a list of row numbers or the error in its place.
pub open spec fn rows_result_view(r: Result<Vec<u64>, QueryError>) -> Result<
    Seq<u64>,
    QueryErrorView,
> {
    match r {
        Ok(rows) => Ok(rows@),
        Err(e) => Err(e@),
    }
}

proof fn lemma_filter_error_stays(
    rows: Seq<Seq<DataView>>,
    columns: Seq<ColumnView>,
    node: NodeView,
    floats: FloatArithmetic,
    k: int,
    n: int,
)
    requires
        0 <= k <= n,
        filter_rows_spec(rows, columns, node, floats, k) is Err,
    ensures
        filter_rows_spec(rows, columns, node, floats, n) == filter_rows_spec(
            rows,
            columns,
            node,
            floats,
            k,
        ),
    decreases n - k,
{
    if k < n {
        lemma_filter_error_stays(rows, columns, node, floats, k, n - 1);
    }
}

fn is_equality_node(node: &Node) -> (r: bool)
    ensures
        r == is_equality(node@),
{
    match node {
        Node::Binary { op, .. } => match op {
            LexerToken::CompareOp(text) => str_equal(text.as_str(), "="),
            _ => false,
        },
        _ => false,
    }
}

fn rows_from_index<A: Fn(NumberBinOp, Number, Number) -> NodeValue>(
    table: &Table,
    storage: &Storage,
    column: &Column,
    right: &Node,
    float_op: &A,
) -> (r: Result<Vec<u64>, QueryError>)
    requires
        storage.wf(),
        float_op_total(float_op),
    ensures
        forall|floats: FloatArithmetic| #[trigger]
            computes_floats_as(float_op, floats) ==> rows_result_view(r) == index_lookup_spec(
                table.name@,
                column@,
                storage@,
                right@,
                floats,
            ),
        !needs_floats(right@, Map::empty()) ==> rows_result_view(r) == index_lookup_spec(
            table.name@,
            column@,
            storage@,
            right@,
            floats_unused(),
        ),
{
    broadcast use vstd::std_specs::hash::group_hash_axioms;

    let index = match table.get_index(storage, column) {
        Ok(index) => index,
        Err(e) => {
            return Err(QueryError::Persistence(e));
        },
    };
    let searched_value = match data_from_node(right, float_op) {
        Ok(value) => value,
        Err(e) => {
            return Err(e);
        },
    };
    let mut result_rows: Vec<u64> = Vec::new();
    let hash = searched_value.calculate_hash();
    match index.rows.get(&hash) {
        Some(index_row) => {
            assert(index@.contains_key(hash) && index@[hash] == index_row@);
            let count = index_row.values.len();
            let ghost entries = entries_view(index_row.values@);
            let mut k: usize = 0;
            while k < count
                invariant
                    count == index_row.values@.len(),
                    entries == entries_view(index_row.values@),
                    k <= count,
                    result_rows@ == entries_with_value(entries, searched_value@, k as int),
                decreases count - k,
            {
                let entry = &index_row.values[k];
                assert(entries[k as int] == (entry.0@, entry.1));
                if entry.0 == searched_value {
                    result_rows.push(entry.1);
                }
                k += 1;
            }
        },
        None => {
            assert(!index@.contains_key(hash));
        },
    }
    Ok(result_rows)
}

/// Finds the numbers of the rows of a table that a condition selects.
#[verifier::loop_isolation(false)]
pub fn get_rows_for_where_condition<A: Fn(NumberBinOp, Number, Number) -> NodeValue>(
    table: &Table,
    storage: &Storage,
    where_body: Option<Node>,
    float_op: &A,
) -> (r: Result<Vec<u64>, QueryError>)
    requires
        storage.wf(),
        table.row_size_fits(),
        float_op_total(float_op),
    ensures
        forall|floats: FloatArithmetic| #[trigger]
            computes_floats_as(float_op, floats) ==> rows_result_view(r) == where_rows_spec(
                table@,
                storage@,
                tree_view(where_body),
                floats,
            ),
        !where_needs_floats(table@, storage@, tree_view(where_body)) ==> rows_result_view(r)
            == where_rows_spec(table@, storage@, tree_view(where_body), floats_unused()),
{
    let columns_def_map = get_columns_definition_map(table);
    let rows = match table.read_rows(storage) {
        Some(rows) => rows,
        None => {
            return Err(QueryError::Persistence(PersistenceErrors::TableLoading));
        },
    };
    let count = rows.len();
    let ghost all = rows_view(rows@);
    let ghost cols = table@.columns;
    let node = match where_body {
        None => {
            let mut numbers: Vec<u64> = Vec::new();
            let mut k: usize = 0;
            assert(numbers@ =~= all_row_numbers(0));
            while k < count
                invariant
                    k <= count,
                    numbers@ == all_row_numbers(k as int),
                decreases count - k,
            {
                numbers.push(k as u64);
                k += 1;
                assert(numbers@ =~= all_row_numbers(k as int));
            }
            return Ok(numbers);
        },
        Some(node) => node,
    };
    let mut identifiers: Vec<String> = Vec::new();
    assert(strings_view(identifiers@) =~= Seq::<Seq<char>>::empty());
    node.collect_identifiers(&mut identifiers);
    assert(strings_view(identifiers@) =~= node@.identifiers());
    let named = identifiers.len();
    let mut i: usize = 0;
    while i < named
        invariant
            named == identifiers@.len(),
            i <= named,
            strings_view(identifiers@) == node@.identifiers(),
            columns_def_map@ == definition_map(cols),
            first_unknown(node@.identifiers(), cols, 0) == first_unknown(
                node@.identifiers(),
                cols,
                i as int,
            ),
        decreases named - i,
    {
        let identifier = &identifiers[i];
        assert(strings_view(identifiers@)[i as int] == identifier@);
        if !columns_def_map.contains_key(identifier.as_str()) {
            return Err(QueryError::ColumnNotExists(identifier.clone(), table.name.clone()));
        }
        i += 1;
    }
    if named == 1 && is_equality_node(&node) {
        let identifier = &identifiers[0];
        assert(strings_view(identifiers@)[0] == identifier@);
        let position = match columns_def_map.get(identifier.as_str()) {
            Some(entry) => entry.0,
            None => unreached(),
        };
        proof {
            assert(cols.len() == table.columns.len());
            lemma_definition_map(cols, cols.len() as int, identifier@);
        }
        let column = &table.columns[position];
        assert(cols[position as int] == column@);
        if column.is_indexed {
            match &node {
                Node::Binary { right, .. } => {
                    return rows_from_index(table, storage, column, right, float_op);
                },
                _ => {},
            }
        }
    }
    let mut rows_i: Vec<u64> = Vec::new();
    let mut k: usize = 0;
    while k < count
        invariant
            count == rows@.len(),
            all == rows_view(rows@),
            cols == table@.columns,
            rows_fit(all, cols),
            float_op_total(float_op),
            k <= count,
            forall|floats: FloatArithmetic| #[trigger]
                computes_floats_as(float_op, floats) ==> filter_rows_spec(
                    all,
                    cols,
                    node@,
                    floats,
                    k as int,
                ) == Ok::<Seq<u64>, QueryErrorView>(rows_i@),
            !where_needs_floats(table@, storage@, Some(node@)) ==> filter_rows_spec(
                all,
                cols,
                node@,
                floats_unused(),
                k as int,
            ) == Ok::<Seq<u64>, QueryErrorView>(rows_i@),
        decreases count - k,
    {
        let row = &rows[k];
        assert(all[k as int] == row@);
        assert(!where_needs_floats(table@, storage@, Some(node@)) ==> !needs_floats(
            node@,
            row_env(all[k as int], cols, all[k as int].len() as int),
        ));
        match apply_row_predicate(row, table, &node, float_op) {
            Ok(selected) => {
                if selected {
                    rows_i.push(k as u64);
                }
            },
            Err(e) => {
                proof {
                    assert forall|floats: FloatArithmetic| #[trigger]
                        computes_floats_as(float_op, floats) implies filter_rows_spec(
                        all,
                        cols,
                        node@,
                        floats,
                        count as int,
                    ) == Err::<Seq<u64>, QueryErrorView>(e@) by {
                        lemma_filter_error_stays(all, cols, node@, floats, k + 1, count as int);
                    }
                    if !where_needs_floats(table@, storage@, Some(node@)) {
                        lemma_filter_error_stays(
                            all,
                            cols,
                            node@,
                            floats_unused(),
                            k + 1,
                            count as int,
                        );
                    }
                }
                return Err(e);
            },
        }
        k += 1;
    }
    Ok(rows_i)
}

/// Among the first `count` rows, a condition selects exactly those for which it is true.
pub proof fn law_filter_selects_true_rows(
    rows: Seq<Seq<DataView>>,
    columns: Seq<ColumnView>,
    node: NodeView,
    floats: FloatArithmetic,
    count: int,
    k: int,
)
    requires
        0 <= k < count <= rows.len(),
        count <= u64::MAX,
        filter_rows_spec(rows, columns, node, floats, count) is Ok,
    ensures
        filter_rows_spec(rows, columns, node, floats, count)->Ok_0.contains(k as u64)
            <==> row_predicate_spec(rows[k], columns, node, floats) == Ok::<bool, QueryErrorView>(
            true,
        ),
        forall|i: int|
            0 <= i < filter_rows_spec(rows, columns, node, floats, count)->Ok_0.len()
                ==> #[trigger] filter_rows_spec(rows, columns, node, floats, count)->Ok_0[i]
                < count,
    decreases count,
{
    let kept = filter_rows_spec(rows, columns, node, floats, count)->Ok_0;
    let before = filter_rows_spec(rows, columns, node, floats, count - 1)->Ok_0;
    let last = (count - 1) as u64;
    if count - 1 > 0 {
        law_filter_selects_true_rows(
            rows,
            columns,
            node,
            floats,
            count - 1,
            if k < count - 1 {
                k
            } else {
                0
            },
        );
    }
    let selected = row_predicate_spec(rows[count - 1], columns, node, floats) == Ok::<
        bool,
        QueryErrorView,
    >(true);
    if selected {
        assert(kept == before.push(last));
        assert(kept[kept.len() - 1] == last);
        if k < count - 1 {
            if before.contains(k as u64) {
                let i = choose|i: int| 0 <= i < before.len() && before[i] == k as u64;
                assert(kept[i] == k as u64);
            }
            if kept.contains(k as u64) {
                let i = choose|i: int| 0 <= i < kept.len() && kept[i] == k as u64;
                assert(i < before.len());
                assert(before[i] == k as u64);
            }
        }
    } else {
        assert(kept == before);
        if k == count - 1 && kept.contains(k as u64) {
            let i = choose|i: int| 0 <= i < kept.len() && kept[i] == k as u64;
            assert(before[i] < count - 1);
        }
    }
}

/// A row for which the condition is NULL is not selected.
pub proof fn law_null_condition_excludes_row(
    rows: Seq<Seq<DataView>>,
    columns: Seq<ColumnView>,
    node: NodeView,
    floats: FloatArithmetic,
    k: int,
)
    requires
        0 <= k < rows.len() <= u64::MAX,
        eval_spec(node, row_env(rows[k], columns, rows[k].len() as int), floats) == Ok::<
            ValueView,
            ParseErrorView,
        >(ValueView::Null),
        filter_rows_spec(rows, columns, node, floats, rows.len() as int) is Ok,
    ensures
        !filter_rows_spec(rows, columns, node, floats, rows.len() as int)->Ok_0.contains(k as u64),
{
    law_filter_selects_true_rows(rows, columns, node, floats, rows.len() as int, k);
}

/// Where the index file of the condition's column holds the index of that column over the
/// rows, the index gives the rows whose value in the column equals the value on the right
/// of the equality, in the order of the row file.
pub proof fn law_index_selects_rows_with_value(
    table: TableView,
    files: Map<Seq<char>, Seq<u8>>,
    node: NodeView,
    floats: FloatArithmetic,
    rows: Seq<Seq<DataView>>,
    value: DataView,
)
    requires
        node.identifiers().len() == 1,
        definition_map(table.columns).contains_key(node.identifiers()[0]),
        ({
            let position = definition_map(table.columns)[node.identifiers()[0]].0 as int;
            let column = table.columns[position];
            let file = index_file_name(table.name, column.name);
            files.contains_key(file) && decode_index_spec(files[file], column.data_type) == Some(
                index_of_rows(rows, position),
            )
        }),
        data_from_node_spec(right_operand(node), floats) == Ok::<DataView, QueryErrorView>(value),
    ensures
        index_rows_spec(table, files, node, floats) == Ok::<Seq<u64>, QueryErrorView>(
            rows_with_value(
                rows,
                definition_map(table.columns)[node.identifiers()[0]].0 as int,
                value,
                rows.len() as int,
            ),
        ),
{
    let position = definition_map(table.columns)[node.identifiers()[0]].0 as int;
    law_index_finds_rows_with_value(rows, position, value);
}

} // verus!
