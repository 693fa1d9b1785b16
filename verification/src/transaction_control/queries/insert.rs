//! `INSERT`: one row from the values of the query, checked against the columns.
use vstd::prelude::*;
use vstd::string::*;
use vstd::utf8::*;
use vstd::hash_map::StringHashMap;
use crate::common::db::{data_seq_view, Column, ColumnView, Data, DataType, DataView, Row};
use crate::common::webserver_models::{QueryResultData, QueryResultView};
use crate::parser::expression_tree::strings_view;
use crate::parser::lexer::{tokens_view, LexerToken, TokenView};
use crate::persistence::column::{data_type_size, PersistenceColumn};
use crate::persistence::errors::PersistenceErrors;
use crate::persistence::row::{row_bytes, strings_fit};
use crate::persistence::storage::Storage;
use crate::persistence::table::{indexes_written, rows_file_name, stored_rows, TableView};
use crate::text::str_equal;
use crate::transaction_control::errors::{QueryError, QueryErrorView};
use crate::transaction_control::queries::select::{query_outcome_view, QueryResult};
use crate::transaction_control::utils::common::{
    definition_map,
    get_columns_definition_map,
    load_table,
    loaded_table,
};

verus! {

/// The cell value that a token of an `INSERT` stands for: a literal stands for its value,
/// and any other token for NULL.
pub open spec fn data_of_token(token: TokenView) -> DataView {
    match token {
        TokenView::NumberLiteral(number) => DataView::INT(number),
        TokenView::StringLiteral(string) => DataView::STRING(string),
        TokenView::FloatNumberLiteral(float) => DataView::FLOAT(float),
        TokenView::BoolLiteral(b) => DataView::BOOLEAN(b),
        _ => DataView::NULL,
    }
}

/// The cell value that a token of an `INSERT` stands for.
pub fn data_from_token(token: &LexerToken) -> (r: Data)
    ensures
        r@ == data_of_token(token@),
{
    match token {
        LexerToken::NumberLiteral(number) => Data::INT(*number),
        LexerToken::StringLiteral(string) => Data::STRING(string.clone()),
        LexerToken::FloatNumberLiteral(float) => Data::FLOAT(*float),
        LexerToken::BoolLiteral(b) => Data::BOOLEAN(*b),
        _ => Data::NULL,
    }
}

/// The names of the columns, in their order.
pub open spec fn column_names(columns: Seq<ColumnView>) -> Seq<Seq<char>> {
    columns.map_values(|c: ColumnView| c.name)
}

/// What is wrong with the first `count` of the named columns, if anything: the first name
/// that is no column of the table, or that was named before.
pub open spec fn check_named_columns(
    names: Seq<Seq<char>>,
    columns: Seq<ColumnView>,
    table_name: Seq<char>,
    count: int,
) -> Option<QueryErrorView>
    decreases count,
{
    if count <= 0 {
        None
    } else {
        match check_named_columns(names, columns, table_name, count - 1) {
            Some(e) => Some(e),
            None => if !definition_map(columns).contains_key(names[count - 1]) {
                Some(QueryErrorView::ColumnNotExists(names[count - 1], table_name))
            } else if names.subrange(0, count - 1).contains(names[count - 1]) {
                Some(QueryErrorView::DuplicateColumn(names[count - 1]))
            } else {
                None
            },
        }
    }
}

/// The columns that the values of an `INSERT` are for. Without named columns there must be
/// as many values as the table has columns, and the values are for the columns in their
/// order. Named columns must be columns of the table, each named once, and each must have
/// a value.
pub open spec fn insert_columns_spec(
    values: Seq<TokenView>,
    names: Seq<Seq<char>>,
    columns: Seq<ColumnView>,
    table_name: Seq<char>,
) -> Result<Seq<Seq<char>>, QueryErrorView> {
    if names.len() == 0 {
        if values.len() != columns.len() {
            Err(
                QueryErrorView::IncorrectNumberOfValues(
                    columns.len() as int,
                    values.len() as int,
                ),
            )
        } else {
            Ok(column_names(columns))
        }
    } else {
        match check_named_columns(names, columns, table_name, names.len() as int) {
            Some(e) => Err(e),
            None => if values.len() < names.len() {
                Err(
                    QueryErrorView::IncorrectNumberOfValues(
                        names.len() as int,
                        values.len() as int,
                    ),
                )
            } else {
                Ok(names)
            },
        }
    }
}

/// The token given for each of the first `count` names. Of two equal names the later one
/// counts.
pub open spec fn token_map_prefix(names: Seq<Seq<char>>, values: Seq<TokenView>, count: int)
    -> Map<Seq<char>, TokenView>
    decreases count,
{
    if count <= 0 {
        Map::empty()
    } else {
        token_map_prefix(names, values, count - 1).insert(names[count - 1], values[count - 1])
    }
}

/// The row of an `INSERT`: for each column of the table the value of the token given for
/// it, and NULL where none is given.
pub open spec fn insert_row_spec(given: Map<Seq<char>, TokenView>, columns: Seq<ColumnView>)
    -> Seq<DataView> {
    Seq::new(
        columns.len(),
        |i: int|
            data_of_token(
                if given.contains_key(columns[i].name) {
                    given[columns[i].name]
                } else {
                    TokenView::Null
                },
            ),
    )
}

/// Whether a value can be stored in a column of the given type: it is NULL, or it has the
/// type of the column and, where it is a string, is no longer than the column is wide.
pub open spec fn fits_column(value: DataView, data_type: DataType) -> bool {
    value is NULL || (value.valid_for(data_type) && (value matches DataView::STRING(s)
        ==> encode_utf8(s).len() <= data_type_size(data_type)))
}

/// The position of the first value, from `from` on, that cannot be stored in its column.
pub open spec fn first_misfit(values: Seq<DataView>, columns: Seq<ColumnView>, from: int)
    -> Option<int>
    decreases values.len() - from,
{
    if from < 0 || from >= values.len() {
        None
    } else if !fits_column(values[from], columns[from].data_type) {
        Some(from)
    } else {
        first_misfit(values, columns, from + 1)
    }
}

/// The message of a successful `INSERT`.
pub open spec fn inserted_message() -> Seq<char> {
    "1 row was succesfully inserted"@
}

/// What storing a row makes of the files, and what is returned: the row is added at the
/// end of the row file, and the index of every indexed column is written anew.
pub open spec fn row_inserted(
    table: TableView,
    row: Seq<DataView>,
    before: Map<Seq<char>, Seq<u8>>,
    r: Result<QueryResultView, QueryErrorView>,
    after: Map<Seq<char>, Seq<u8>>,
) -> bool {
    let rows_name = rows_file_name(table.name);
    if !before.contains_key(rows_name) {
        r == Err::<QueryResultView, QueryErrorView>(
            QueryErrorView::Persistence(PersistenceErrors::Insert),
        ) && after == before
    } else {
        let appended = before.insert(rows_name, before[rows_name] + row_bytes(row, table.columns));
        match stored_rows(table, appended) {
            None => r == Err::<QueryResultView, QueryErrorView>(
                QueryErrorView::Persistence(PersistenceErrors::TableLoading),
            ) && after == appended,
            Some(rows) => r == Ok::<QueryResultView, QueryErrorView>(
                QueryResultView { data: None, message: Some(inserted_message()) },
            ) && indexes_written(table, rows, appended, after, table.columns.len() as int),
        }
    }
}

/// What an `INSERT` makes of the files, and what it returns. Nothing is stored unless the
/// table can be loaded, the columns and the number of values are in order, and every value
/// can be stored in its column.
pub open spec fn insert_post(
    values: Seq<TokenView>,
    table_name: Seq<char>,
    names: Seq<Seq<char>>,
    before: Map<Seq<char>, Seq<u8>>,
    r: Result<QueryResultView, QueryErrorView>,
    after: Map<Seq<char>, Seq<u8>>,
) -> bool {
    match loaded_table(before, table_name) {
        None => r == Err::<QueryResultView, QueryErrorView>(
            QueryErrorView::Persistence(PersistenceErrors::TableLoading),
        ) && after == before,
        Some(table) => match insert_columns_spec(values, names, table.columns, table_name) {
            Err(e) => r == Err::<QueryResultView, QueryErrorView>(e) && after == before,
            Ok(columns) => {
                let row = insert_row_spec(
                    token_map_prefix(columns, values, columns.len() as int),
                    table.columns,
                );
                match first_misfit(row, table.columns, 0) {
                    Some(i) => r == Err::<QueryResultView, QueryErrorView>(
                        QueryErrorView::InvalidDataType(
                            table.columns[i].name,
                            table.columns[i].data_type.text(),
                            row[i].kind_text(),
                        ),
                    ) && after == before,
                    None => row_inserted(table, row, before, r, after),
                }
            },
        },
    }
}

fn named_before(names: &Vec<String>, upto: usize, name: &str) -> (r: bool)
    requires
        upto <= names@.len(),
    ensures
        r == strings_view(names@).subrange(0, upto as int).contains(name@),
{
    let ghost earlier = strings_view(names@).subrange(0, upto as int);
    let mut k: usize = 0;
    while k < upto
        invariant
            upto <= names@.len(),
            earlier == strings_view(names@).subrange(0, upto as int),
            k <= upto,
            forall|i: int| 0 <= i < k ==> earlier[i] != name@,
        decreases upto - k,
    {
        if str_equal(names[k].as_str(), name) {
            assert(earlier[k as int] == name@);
            return true;
        }
        k += 1;
    }
    false
}

fn value_fits(value: &Data, column: &Column) -> (r: bool)
    ensures
        r == fits_column(value@, column.data_type),
{
    match value {
        Data::NULL => true,
        Data::STRING(string) => value.is_valid_data_for_type(&column.data_type)
            && string.as_str().as_bytes().len() <= column.size(),
        _ => value.is_valid_data_for_type(&column.data_type),
    }
}

/// Handles an `INSERT`.
#[verifier::loop_isolation(false)]
pub fn process_insert_query(
    values: Vec<LexerToken>,
    table_name: String,
    columns: Vec<String>,
    storage: &mut Storage,
) -> (r: QueryResult)
    requires
        old(storage).wf(),
    ensures
        final(storage).wf(),
        insert_post(
            tokens_view(values@),
            table_name@,
            strings_view(columns@),
            old(storage)@,
            query_outcome_view(r),
            final(storage)@,
        ),
{
    let table = match load_table(storage, table_name.clone()) {
        Ok(table) => table,
        Err(e) => {
            return Err(e);
        },
    };
    let columns_def_map = get_columns_definition_map(&table);
    let ghost cols = table@.columns;
    let ghost tokens = tokens_view(values@);
    let ghost names = strings_view(columns@);
    let width = table.columns.len();
    let columns = if columns.len() == 0 {
        if values.len() != width {
            return Err(QueryError::IncorrectNumberOfValues(width, values.len()));
        }
        let mut all: Vec<String> = Vec::new();
        let mut k: usize = 0;
        while k < width
            invariant
                k <= width,
                all@.len() == k,
                forall|i: int| 0 <= i < k ==> (#[trigger] all@[i])@ == cols[i].name,
            decreases width - k,
        {
            let column = &table.columns[k];
            assert(cols[k as int] == column@);
            all.push(column.name.clone());
            k += 1;
        }
        assert(strings_view(all@) =~= column_names(cols));
        all
    } else {
        let named = columns.len();
        let mut k: usize = 0;
        while k < named
            invariant
                k <= named,
                check_named_columns(names, cols, table_name@, k as int) is None,
            decreases named - k,
        {
            let column_name = &columns[k];
            assert(names[k as int] == column_name@);
            if !columns_def_map.contains_key(column_name.as_str()) {
                proof {
                    lemma_check_error_stays(names, cols, table_name@, k + 1, named as int);
                }
                return Err(QueryError::ColumnNotExists(column_name.clone(), table_name));
            }
            if named_before(&columns, k, column_name.as_str()) {
                proof {
                    lemma_check_error_stays(names, cols, table_name@, k + 1, named as int);
                }
                return Err(QueryError::DuplicateColumn(column_name.clone()));
            }
            k += 1;
        }
        if values.len() < named {
            return Err(QueryError::IncorrectNumberOfValues(named, values.len()));
        }
        columns
    };
    let ghost targets = strings_view(columns@);
    assert(insert_columns_spec(tokens, names, cols, table_name@) == Ok::<
        Seq<Seq<char>>,
        QueryErrorView,
    >(targets));
    let mut data_map: StringHashMap<LexerToken> = StringHashMap::new();
    let given = columns.len();
    let mut i: usize = 0;
    assert(data_map@.map_values(|t: LexerToken| t@) =~= token_map_prefix(targets, tokens, 0));
    while i < given
        invariant
            i <= given,
            given <= values@.len(),
            data_map@.map_values(|t: LexerToken| t@) == token_map_prefix(targets, tokens, i as int),
        decreases given - i,
    {
        let name = &columns[i];
        assert(targets[i as int] == name@);
        let token = values[i].clone();
        assert(tokens[i as int] == token@);
        let ghost before = data_map@.map_values(|t: LexerToken| t@);
        data_map.insert(name.clone(), token);
        assert(data_map@.map_values(|t: LexerToken| t@) =~= before.insert(name@, token@));
        i += 1;
    }
    let ghost given_tokens = token_map_prefix(targets, tokens, targets.len() as int);
    let ghost row = insert_row_spec(given_tokens, cols);
    let mut insert_values: Vec<Data> = Vec::new();
    let mut j: usize = 0;
    while j < width
        invariant
            j <= width,
            insert_values@.len() == j,
            forall|c: int| 0 <= c < j ==> (#[trigger] insert_values@[c])@ == row[c],
        decreases width - j,
    {
        let column = &table.columns[j];
        assert(cols[j as int] == column@);
        let value = match data_map.get(column.name.as_str()) {
            Some(token) => data_from_token(token),
            None => Data::NULL,
        };
        insert_values.push(value);
        j += 1;
    }
    assert(data_seq_view(insert_values@) =~= row);
    let mut c: usize = 0;
    while c < width
        invariant
            c <= width,
            first_misfit(row, cols, 0) == first_misfit(row, cols, c as int),
            forall|d: int| 0 <= d < c ==> fits_column(#[trigger] row[d], cols[d].data_type),
        decreases width - c,
    {
        let column = &table.columns[c];
        assert(cols[c as int] == column@);
        let value = &insert_values[c];
        assert(value@ == row[c as int]);
        if !value_fits(value, column) {
            return Err(
                QueryError::InvalidDataType(
                    column.name.clone(),
                    column.data_type.to_string(),
                    value.to_type(),
                ),
            );
        }
        c += 1;
    }
    let new_row = Row { values: insert_values };
    assert(new_row@ == row);
    assert(strings_fit(row, cols));
    match table.insert_row(storage, &new_row) {
        Ok(_) => {},
        Err(e) => {
            return Err(QueryError::Persistence(e));
        },
    }
    Ok(
        QueryResultData {
            data: None,
            message: Some(String::from_str("1 row was succesfully inserted")),
        },
    )
}

proof fn lemma_check_error_stays(
    names: Seq<Seq<char>>,
    columns: Seq<ColumnView>,
    table_name: Seq<char>,
    k: int,
    n: int,
)
    requires
        0 <= k <= n,
        check_named_columns(names, columns, table_name, k) is Some,
    ensures
        check_named_columns(names, columns, table_name, n) == check_named_columns(
            names,
            columns,
            table_name,
            k,
        ),
    decreases n - k,
{
    if k < n {
        lemma_check_error_stays(names, columns, table_name, k, n - 1);
    }
}

} // verus!
