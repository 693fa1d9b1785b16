//! Tables: the header format, the row file, and the operations of the table store.
use vstd::prelude::*;
use vstd::pervasive::unreached;
use vstd::string::*;
use vstd::utf8::*;
use std::collections::HashMap;
use crate::common::db::{columns_view, Column, ColumnView, DataView, Row};
use crate::persistence::bytes::{
    be32,
    be32_value,
    copy_range,
    lemma_be32_round_trip,
    lemma_piece_at,
    push_bytes,
    read_be32,
};
use crate::persistence::column::{
    column_bytes,
    column_fits,
    data_type_size,
    decode_column,
    decode_column_spec,
    lemma_column_round_trip,
    length32,
    push_text,
    string_from_utf8,
    text_bytes,
    PersistenceColumn,
};
use crate::persistence::errors::PersistenceErrors;
use crate::persistence::index::{
    decode_index_spec,
    entries_bytes,
    entries_fit,
    entries_storable,
    entries_view,
    index_storable,
    law_index_encoding_decodes,
    lemma_entries_length,
    index_fits,
    is_index_encoding,
    Index,
    IndexRow,
    IndexRowView,
};
use crate::persistence::row::{
    data_hash,
    decode_row,
    decode_row_spec,
    law_equal_values_hash_equally,
    law_row_round_trip,
    lemma_decoded_row_fits,
    row_bytes,
    row_offset,
    row_size,
    row_storable,
    storable,
    strings_fit,
    PersistenceData,
    PersistenceRow,
};
use crate::persistence::storage::Storage;

verus! {

/// A table: its name and its columns.
#[derive(Eq, PartialEq, Debug)]
pub struct Table {
    pub name: String,
    pub columns: Vec<Column>,
}

/// What a `Table` is, with text as sequences of characters.
pub struct TableView {
    pub name: Seq<char>,
    pub columns: Seq<ColumnView>,
}

impl View for Table {
    type V = TableView;

    open spec fn view(&self) -> TableView {
        TableView { name: self.name@, columns: columns_view(self.columns@) }
    }
}

/// The name of the file that holds the rows of a table.
pub open spec fn rows_file_name(table: Seq<char>) -> Seq<char> {
    table + "_rows"@
}

/// The name of the file that holds the index of a column.
pub open spec fn index_file_name(table: Seq<char>, column: Seq<char>) -> Seq<char> {
    table + column + "_index"@
}

/// The bytes of the first `count` columns, one after the other.
pub open spec fn columns_prefix_bytes(columns: Seq<ColumnView>, count: int) -> Seq<u8>
    decreases count,
{
    if count <= 0 {
        Seq::empty()
    } else {
        columns_prefix_bytes(columns, count - 1) + column_bytes(columns[count - 1])
    }
}

/// The header of a table: its length-prefixed name, then its columns.
pub open spec fn table_bytes(table: TableView) -> Seq<u8> {
    text_bytes(table.name) + columns_prefix_bytes(table.columns, table.columns.len() as int)
}

/// The columns that the bytes from `at` on state, added to `acc`, if they state columns.
pub open spec fn decode_columns_from(bytes: Seq<u8>, at: int, acc: Seq<ColumnView>) -> Option<
    Seq<ColumnView>,
>
    decreases bytes.len() - at,
{
    if at < 0 || at >= bytes.len() {
        Some(acc)
    } else if at + 4 > bytes.len() {
        None
    } else {
        let end = at + be32_value(bytes.subrange(at, at + 4)) + 13;
        if end > bytes.len() {
            None
        } else {
            match decode_column_spec(bytes.subrange(at, end)) {
                None => None,
                Some(column) => decode_columns_from(bytes, end, acc.push(column)),
            }
        }
    }
}

/// The table that a header states, if it states one.
pub open spec fn decode_table_spec(bytes: Seq<u8>) -> Option<TableView> {
    if bytes.len() < 4 {
        None
    } else {
        let name_size = be32_value(bytes.subrange(0, 4)) as int;
        if bytes.len() < 4 + name_size || !valid_utf8(bytes.subrange(4, 4 + name_size)) {
            None
        } else {
            match decode_columns_from(bytes, 4 + name_size, Seq::empty()) {
                None => None,
                Some(columns) => Some(
                    TableView { name: decode_utf8(bytes.subrange(4, 4 + name_size)), columns },
                ),
            }
        }
    }
}

/// Whether the names of the table and of its columns are short enough for the format.
pub open spec fn table_fits(table: TableView) -> bool {
    encode_utf8(table.name).len() <= u32::MAX && forall|i: int|
        0 <= i < table.columns.len() ==> column_fits(#[trigger] table.columns[i])
}

/// The length that the first four bytes state.
fn get_size(bytes: &[u8]) -> (r: u32)
    requires
        bytes@.len() >= 4,
    ensures
        r == be32_value(bytes@.subrange(0, 4)),
{
    read_be32(bytes, 0)
}

/// Reads a table from its header, or nothing where the bytes state none.
pub fn decode_table(bytes: &[u8]) -> (r: Option<Table>)
    ensures
        match r {
            Some(table) => decode_table_spec(bytes@) == Some(table@),
            None => decode_table_spec(bytes@) is None,
        },
{
    let n = bytes.len();
    if n < 4 {
        return None;
    }
    let name_size = get_size(bytes);
    if ((n - 4) as u64) < name_size as u64 {
        return None;
    }
    let name_end: usize = 4 + name_size as usize;
    let name = match string_from_utf8(copy_range(bytes, 4, name_end)) {
        Some(name) => name,
        None => {
            return None;
        },
    };
    let mut columns: Vec<Column> = Vec::new();
    let mut column_beginning: usize = name_end;
    assert(columns_view(columns@) =~= Seq::<ColumnView>::empty());
    while column_beginning < n
        invariant
            n == bytes@.len(),
            n >= 4,
            name_end == 4 + be32_value(bytes@.subrange(0, 4)),
            name_end <= n,
            valid_utf8(bytes@.subrange(4, name_end as int)),
            column_beginning <= n,
            decode_columns_from(bytes@, name_end as int, Seq::empty()) == decode_columns_from(
                bytes@,
                column_beginning as int,
                columns_view(columns@),
            ),
        decreases n - column_beginning,
    {
        if n - column_beginning < 4 {
            return None;
        }
        let column_name_size = read_be32(bytes, column_beginning);
        if ((n - column_beginning) as u64) < column_name_size as u64 + 13 {
            return None;
        }
        let end: usize = column_beginning + column_name_size as usize + 13;
        let record = copy_range(bytes, column_beginning, end);
        let column = match decode_column(record.as_slice()) {
            Some(column) => column,
            None => {
                return None;
            },
        };
        let ghost before = columns_view(columns@);
        columns.push(column);
        assert(columns_view(columns@) =~= before.push(column@));
        column_beginning = end;
    }
    Some(Table { name, columns })
}

proof fn lemma_columns_prefix_is_prefix(columns: Seq<ColumnView>, count: int, total: int)
    requires
        0 <= count <= total,
    ensures
        columns_prefix_bytes(columns, count).is_prefix_of(columns_prefix_bytes(columns, total)),
    decreases total - count,
{
    if count < total {
        lemma_columns_prefix_is_prefix(columns, count, total - 1);
    }
}

proof fn lemma_decode_columns_step(
    bytes: Seq<u8>,
    at: int,
    acc: Seq<ColumnView>,
    column: ColumnView,
    record: Seq<u8>,
)
    requires
        0 <= at,
        at + record.len() <= bytes.len(),
        bytes.subrange(at, at + record.len()) == record,
        record.len() >= 4,
        record.len() == be32_value(record.subrange(0, 4)) + 13,
        decode_column_spec(record) == Some(column),
    ensures
        decode_columns_from(bytes, at, acc) == decode_columns_from(
            bytes,
            at + record.len(),
            acc.push(column),
        ),
{
    assert(bytes.subrange(at, at + 4) =~= record.subrange(0, 4));
}

proof fn lemma_columns_round_trip(before: Seq<u8>, columns: Seq<ColumnView>, k: int)
    requires
        0 <= k <= columns.len(),
        forall|i: int| 0 <= i < columns.len() ==> column_fits(#[trigger] columns[i]),
    ensures
        decode_columns_from(
            before + columns_prefix_bytes(columns, columns.len() as int),
            (before.len() + columns_prefix_bytes(columns, k).len()) as int,
            columns.subrange(0, k),
        ) == Some(columns),
    decreases columns.len() - k,
{
    let n = columns.len() as int;
    let all = columns_prefix_bytes(columns, n);
    let bytes = before + all;
    let shorter = columns_prefix_bytes(columns, k);
    if k < n {
        let record = column_bytes(columns[k]);
        let at = (before.len() + shorter.len()) as int;
        assert((shorter + record).is_prefix_of(all)) by {
            lemma_columns_prefix_is_prefix(columns, k + 1, n);
        }
        lemma_piece_at(before, shorter, record, all);
        assert(decode_column_spec(record) == Some(columns[k]) && record.len() == be32_value(
            record.subrange(0, 4),
        ) + 13) by {
            lemma_column_round_trip(columns[k], Seq::empty());
            assert(record + Seq::<u8>::empty() =~= record);
        }
        lemma_decode_columns_step(bytes, at, columns.subrange(0, k), columns[k], record);
        assert(columns.subrange(0, k).push(columns[k]) =~= columns.subrange(0, k + 1));
        lemma_columns_round_trip(before, columns, k + 1);
    } else {
        assert(columns.subrange(0, k) =~= columns);
    }
}

proof fn lemma_text_round_trip(text: Seq<char>, rest: Seq<u8>)
    requires
        encode_utf8(text).len() <= u32::MAX,
    ensures
        ({
            let bytes = text_bytes(text) + rest;
            let size = encode_utf8(text).len() as int;
            &&& text_bytes(text).len() == 4 + size
            &&& be32_value(bytes.subrange(0, 4)) == size
            &&& bytes.subrange(4, 4 + size) == encode_utf8(text)
            &&& valid_utf8(encode_utf8(text))
            &&& decode_utf8(encode_utf8(text)) == text
        }),
{
    let bytes = text_bytes(text) + rest;
    let utf8 = encode_utf8(text);
    lemma_be32_round_trip(length32(text));
    encode_utf8_valid_utf8(text);
    encode_utf8_decode_utf8(text);
    assert(bytes.subrange(0, 4) =~= be32(length32(text)));
    assert(bytes.subrange(4, 4 + utf8.len() as int) =~= utf8);
}

/// A table header read back is the same table, as long as the names of the table and of its
/// columns are short enough for the format.
pub proof fn law_table_round_trip(table: TableView)
    requires
        table_fits(table),
    ensures
        decode_table_spec(table_bytes(table)) == Some(table),
{
    let size = encode_utf8(table.name).len() as int;
    let head = text_bytes(table.name);
    let all = columns_prefix_bytes(table.columns, table.columns.len() as int);
    let bytes = table_bytes(table);
    assert(bytes == head + all);
    lemma_text_round_trip(table.name, all);
    assert(decode_columns_from(bytes, 4 + size, Seq::empty()) == Some(table.columns)) by {
        lemma_columns_round_trip(head, table.columns, 0);
        assert(table.columns.subrange(0, 0) =~= Seq::<ColumnView>::empty());
        assert(columns_prefix_bytes(table.columns, 0).len() == 0);
    }
}

proof fn lemma_row_offset_monotone(columns: Seq<ColumnView>, count: int, total: int)
    requires
        0 <= count <= total,
    ensures
        row_offset(columns, count) <= row_offset(columns, total),
    decreases total - count,
{
    if count < total {
        lemma_row_offset_monotone(columns, count, total - 1);
    }
}

/// The rows that the bytes from `at` on state, added to `acc`, if they state whole rows.
pub open spec fn decode_rows_from(
    bytes: Seq<u8>,
    columns: Seq<ColumnView>,
    at: int,
    acc: Seq<Seq<DataView>>,
) -> Option<Seq<Seq<DataView>>>
    decreases bytes.len() - at,
{
    let size = row_size(columns) as int;
    if at < 0 || at >= bytes.len() {
        Some(acc)
    } else if size == 0 || at + size > bytes.len() {
        None
    } else {
        match decode_row_spec(bytes.subrange(at, at + size), columns) {
            None => None,
            Some(row) => decode_rows_from(bytes, columns, at + size, acc.push(row)),
        }
    }
}

/// The rows that the bytes of a row file state, if they state whole rows.
pub open spec fn decode_rows_spec(bytes: Seq<u8>, columns: Seq<ColumnView>) -> Option<
    Seq<Seq<DataView>>,
> {
    decode_rows_from(bytes, columns, 0, Seq::empty())
}

/// The views of a sequence of rows.
pub open spec fn rows_view(rows: Seq<Row>) -> Seq<Seq<DataView>> {
    rows.map_values(|row: Row| row@)
}

/// Whether each row has one value for each column and its strings fit the columns.
pub open spec fn rows_fit(rows: Seq<Seq<DataView>>, columns: Seq<ColumnView>) -> bool {
    forall|r: int|
        0 <= r < rows.len() ==> (#[trigger] rows[r]).len() == columns.len() && strings_fit(
            rows[r],
            columns,
        )
}

/// Rows read from a row file have one value for each column, and their strings fit.
pub proof fn lemma_decoded_rows_fit(
    bytes: Seq<u8>,
    columns: Seq<ColumnView>,
    at: int,
    acc: Seq<Seq<DataView>>,
)
    requires
        rows_fit(acc, columns),
        decode_rows_from(bytes, columns, at, acc) is Some,
    ensures
        rows_fit(decode_rows_from(bytes, columns, at, acc)->0, columns),
    decreases bytes.len() - at,
{
    let size = row_size(columns) as int;
    if 0 <= at < bytes.len() {
        let record = bytes.subrange(at, at + size);
        let row = decode_row_spec(record, columns)->0;
        lemma_decoded_row_fits(record, columns, columns.len() as int);
        let longer = acc.push(row);
        assert(rows_fit(longer, columns)) by {
            assert forall|r: int| 0 <= r < longer.len() implies (#[trigger] longer[r]).len()
                == columns.len() && strings_fit(longer[r], columns) by {
                if r < acc.len() {
                    assert(longer[r] == acc[r]);
                }
            }
        }
        lemma_decoded_rows_fit(bytes, columns, at + size, longer);
    }
}

/// Reads the rows of a row file, or nothing where the bytes do not state whole rows.
/// `width` is the width of a row under the columns.
pub fn decode_rows(bytes: &[u8], columns: &Vec<Column>, width: usize) -> (r: Option<Vec<Row>>)
    requires
        width == row_size(columns_view(columns@)),
    ensures
        match r {
            Some(rows) => decode_rows_spec(bytes@, columns_view(columns@)) == Some(
                rows_view(rows@),
            ) && rows_fit(rows_view(rows@), columns_view(columns@)),
            None => decode_rows_spec(bytes@, columns_view(columns@)) is None,
        },
{
    let n = bytes.len();
    let mut rows: Vec<Row> = Vec::new();
    let mut index: usize = 0;
    assert(rows_view(rows@) =~= Seq::<Seq<DataView>>::empty());
    while index < n
        invariant
            n == bytes@.len(),
            index <= n,
            width == row_size(columns_view(columns@)),
            decode_rows_spec(bytes@, columns_view(columns@)) == decode_rows_from(
                bytes@,
                columns_view(columns@),
                index as int,
                rows_view(rows@),
            ),
        decreases n - index,
    {
        if width == 0 || width > n - index {
            return None;
        }
        let record = copy_range(bytes, index, index + width);
        let row = match decode_row(record.as_slice(), columns) {
            Some(row) => row,
            None => {
                return None;
            },
        };
        let ghost before = rows_view(rows@);
        rows.push(row);
        assert(rows_view(rows@) =~= before.push(row@));
        index += width;
    }
    proof {
        lemma_decoded_rows_fit(bytes@, columns_view(columns@), 0, Seq::empty());
    }
    Some(rows)
}

/// The values of a bucket, none where the index has no such bucket.
pub open spec fn bucket_values(index: Map<u64, IndexRowView>, hash: u64) -> Seq<(DataView, u64)> {
    if index.contains_key(hash) {
        index[hash].values
    } else {
        Seq::empty()
    }
}

/// The index of a column over the first `count` rows: each value stands in the bucket of
/// its hash, with the number of its row, in the order of the rows.
pub open spec fn index_prefix(rows: Seq<Seq<DataView>>, column: int, count: int) -> Map<
    u64,
    IndexRowView,
>
    decreases count,
{
    if count <= 0 {
        Map::empty()
    } else {
        let before = index_prefix(rows, column, count - 1);
        let value = rows[count - 1][column];
        let hash = data_hash(value);
        before.insert(
            hash,
            IndexRowView {
                hash,
                values: bucket_values(before, hash).push((value, (count - 1) as u64)),
            },
        )
    }
}

/// The index of a column over all rows.
pub open spec fn index_of_rows(rows: Seq<Seq<DataView>>, column: int) -> Map<u64, IndexRowView> {
    index_prefix(rows, column, rows.len() as int)
}

/// The index of rows whose strings fit the column holds only strings that fit.
pub proof fn lemma_index_of_rows_fits(
    rows: Seq<Seq<DataView>>,
    columns: Seq<ColumnView>,
    column: int,
    count: int,
)
    requires
        rows_fit(rows, columns),
        0 <= column < columns.len(),
        0 <= count <= rows.len(),
    ensures
        index_fits(index_prefix(rows, column, count), columns[column].data_type),
    decreases count,
{
    let data_type = columns[column].data_type;
    if count > 0 {
        lemma_index_of_rows_fits(rows, columns, column, count - 1);
        let before = index_prefix(rows, column, count - 1);
        let after = index_prefix(rows, column, count);
        let value = rows[count - 1][column];
        let hash = data_hash(value);
        let longer = bucket_values(before, hash).push((value, (count - 1) as u64));
        assert(entries_fit(longer, data_type)) by {
            assert(strings_fit(rows[count - 1], columns));
            assert forall|i: int| 0 <= i < longer.len() implies ((#[trigger] longer[i]).0 matches DataView::STRING(
                s,
            ) ==> encode_utf8(s).len() <= data_type_size(data_type)) by {
                if i < longer.len() - 1 {
                    assert(before.contains_key(hash));
                    assert(longer[i] == before[hash].values[i]);
                }
            }
        }
        assert forall|key: u64| #[trigger] after.contains_key(key) implies entries_fit(
            after[key].values,
            data_type,
        ) by {
            if key != hash {
                assert(before.contains_key(key));
            }
        }
    }
}

/// Builds the index of a column over rows that each hold a value for it.
pub fn build_index(rows: &Vec<Row>, column_index: usize) -> (r: Index)
    requires
        forall|i: int| 0 <= i < rows@.len() ==> column_index < (#[trigger] rows@[i])@.len(),
    ensures
        r@ == index_of_rows(rows_view(rows@), column_index as int),
{
    broadcast use vstd::std_specs::hash::group_hash_axioms;

    let count = rows.len();
    let ghost all = rows_view(rows@);
    let mut map: HashMap<u64, IndexRow> = HashMap::new();
    let mut k: usize = 0;
    assert(map@.map_values(|row: IndexRow| row@) =~= Map::<u64, IndexRowView>::empty());
    while k < count
        invariant
            count == rows@.len(),
            all == rows_view(rows@),
            k <= count,
            forall|i: int| 0 <= i < rows@.len() ==> column_index < (#[trigger] rows@[i])@.len(),
            map@.map_values(|row: IndexRow| row@) == index_prefix(all, column_index as int, k as int),
        decreases count - k,
    {
        let row = &rows[k];
        assert(all[k as int] == row@);
        assert(column_index < rows@[k as int]@.len());
        let data = row.values[column_index].clone();
        assert(data@ == all[k as int][column_index as int]);
        let hash = data.calculate_hash();
        let ghost before = map@.map_values(|row: IndexRow| row@);
        let mut bucket = match map.remove(&hash) {
            Some(bucket) => bucket,
            None => IndexRow { hash, values: Vec::new() },
        };
        assert(entries_view(bucket.values@) =~= bucket_values(
            before,
            hash,
        ));
        let ghost entries = entries_view(bucket.values@);
        bucket.values.push((data, k as u64));
        assert(entries_view(bucket.values@) =~= entries.push(
            (data@, k as u64),
        ));
        bucket.hash = hash;
        let ghost added = bucket@;
        map.insert(hash, bucket);
        assert(map@.map_values(|row: IndexRow| row@) =~= before.insert(hash, added));
        k += 1;
    }
    Index { rows: map }
}

impl Table {
    /// Whether the width of a row fits in a machine word.
    pub open spec fn row_size_fits(&self) -> bool {
        row_size(self@.columns) <= usize::MAX
    }

    /// Decides `row_size_fits`.
    pub fn check_row_size(&self) -> (r: bool)
        ensures
            r == self.row_size_fits(),
    {
        let count = self.columns.len();
        let ghost cols = columns_view(self.columns@);
        let mut total: usize = 0;
        let mut k: usize = 0;
        while k < count
            invariant
                count == self.columns@.len(),
                cols == columns_view(self.columns@),
                k <= count,
                total == row_offset(cols, k as int),
            decreases count - k,
        {
            let column = &self.columns[k];
            assert(cols[k as int] == column@);
            let size = column.size();
            if size > usize::MAX - total {
                proof {
                    lemma_row_offset_monotone(cols, k + 1, count as int);
                }
                return false;
            }
            total += size;
            k += 1;
        }
        true
    }

    /// The width of a row: the sum of the widths of the columns.
    pub fn get_row_size(&self) -> (r: usize)
        requires
            self.row_size_fits(),
        ensures
            r == row_size(self@.columns),
    {
        let count = self.columns.len();
        let ghost cols = columns_view(self.columns@);
        let mut total: usize = 0;
        let mut k: usize = 0;
        while k < count
            invariant
                count == self.columns@.len(),
                cols == columns_view(self.columns@),
                row_offset(cols, count as int) <= usize::MAX,
                k <= count,
                total == row_offset(cols, k as int),
            decreases count - k,
        {
            let column = &self.columns[k];
            assert(cols[k as int] == column@);
            proof {
                lemma_row_offset_monotone(cols, k + 1, count as int);
            }
            total += column.size();
            k += 1;
        }
        total
    }

    /// The name of the file that holds the rows.
    pub fn table_rows_name(&self) -> (r: String)
        ensures
            r@ == rows_file_name(self.name@),
    {
        self.name.clone().concat("_rows")
    }

    /// The name of the file that holds the index of a column.
    pub fn get_index_file_name(&self, column: &Column) -> (r: String)
        ensures
            r@ == index_file_name(self.name@, column.name@),
    {
        self.name.clone().concat(column.name.as_str()).concat("_index")
    }

    /// Writes the header of the table.
    pub fn to_bytes(&self) -> (r: Vec<u8>)
        ensures
            r@ == table_bytes(self@),
    {
        let mut out: Vec<u8> = Vec::new();
        push_text(&mut out, self.name.as_str());
        let count = self.columns.len();
        let ghost cols = columns_view(self.columns@);
        let mut k: usize = 0;
        assert(out@ =~= text_bytes(self.name@) + columns_prefix_bytes(cols, 0));
        while k < count
            invariant
                count == self.columns@.len(),
                cols == columns_view(self.columns@),
                k <= count,
                out@ == text_bytes(self.name@) + columns_prefix_bytes(cols, k as int),
            decreases count - k,
        {
            let column = &self.columns[k];
            assert(cols[k as int] == column@);
            let record = column.to_bytes();
            push_bytes(&mut out, record.as_slice());
            assert(out@ =~= text_bytes(self.name@) + columns_prefix_bytes(cols, k + 1));
            k += 1;
        }
        out
    }

    /// Reads a table from a header that states one.
    pub fn from_bytes(bytes: Vec<u8>) -> (r: Table)
        requires
            decode_table_spec(bytes@) is Some,
        ensures
            Some(r@) == decode_table_spec(bytes@),
    {
        match decode_table(bytes.as_slice()) {
            Some(table) => table,
            None => unreached(),
        }
    }
}

/// The rows that the files hold for a table, if its row file exists and states whole rows.
pub open spec fn stored_rows(table: TableView, files: Map<Seq<char>, Seq<u8>>) -> Option<
    Seq<Seq<DataView>>,
> {
    if files.contains_key(rows_file_name(table.name)) {
        decode_rows_spec(files[rows_file_name(table.name)], table.columns)
    } else {
        None
    }
}

/// The name of the index file of the column at `i`.
pub open spec fn column_index_file(table: TableView, i: int) -> Seq<char> {
    index_file_name(table.name, table.columns[i].name)
}

/// Whether `name` is the index file of an indexed column among the first `count`.
pub open spec fn writes_index_file(table: TableView, name: Seq<char>, count: int) -> bool {
    exists|i: int|
        0 <= i < count && table.columns[i].is_indexed && #[trigger] column_index_file(table, i)
            == name
}

/// Whether no indexed column behind `i`, among the first `count`, has the same index file.
pub open spec fn is_last_writer(table: TableView, i: int, count: int) -> bool {
    forall|j: int|
        i < j < count && table.columns[j].is_indexed ==> #[trigger] column_index_file(table, j)
            != column_index_file(table, i)
}

/// What writing the indexes of the first `count` columns makes of the files: each indexed
/// column has an index file that holds the index of that column over the rows, and no
/// other file has changed.
pub open spec fn indexes_written(
    table: TableView,
    rows: Seq<Seq<DataView>>,
    before: Map<Seq<char>, Seq<u8>>,
    after: Map<Seq<char>, Seq<u8>>,
    count: int,
) -> bool {
    &&& forall|name: Seq<char>| #[trigger]
        after.contains_key(name) <==> (before.contains_key(name) || writes_index_file(
            table,
            name,
            count,
        ))
    &&& forall|name: Seq<char>|
        before.contains_key(name) && !writes_index_file(table, name, count) ==> #[trigger] after[name]
            == before[name]
    &&& forall|i: int|
        0 <= i < count && table.columns[i].is_indexed && is_last_writer(table, i, count)
            ==> is_index_encoding(
            #[trigger] after[column_index_file(table, i)],
            index_of_rows(rows, i),
            table.columns[i].data_type,
        )
}

/// The files with an empty index file for each indexed column among the first `count`.
pub open spec fn with_empty_indexes(
    table: TableView,
    files: Map<Seq<char>, Seq<u8>>,
    count: int,
) -> Map<Seq<char>, Seq<u8>>
    decreases count,
{
    if count <= 0 {
        files
    } else if table.columns[count - 1].is_indexed {
        with_empty_indexes(table, files, count - 1).insert(
            column_index_file(table, count - 1),
            Seq::empty(),
        )
    } else {
        with_empty_indexes(table, files, count - 1)
    }
}

/// What removing the index files of the indexed columns from `from` on makes of the files,
/// and whether every one of them was there. The first that is missing ends the removal.
pub open spec fn drop_indexes(table: TableView, files: Map<Seq<char>, Seq<u8>>, from: int) -> (
    Map<Seq<char>, Seq<u8>>,
    bool,
)
    decreases table.columns.len() - from,
{
    if from < 0 || from >= table.columns.len() {
        (files, true)
    } else if !table.columns[from].is_indexed {
        drop_indexes(table, files, from + 1)
    } else if !files.contains_key(column_index_file(table, from)) {
        (files, false)
    } else {
        drop_indexes(table, files.remove(column_index_file(table, from)), from + 1)
    }
}

/// What dropping a table makes of the files, and whether every file was there: the
/// header, the row file, and the index file of each indexed column are removed in that
/// order, up to the first that is missing.
pub open spec fn drop_table(table: TableView, files: Map<Seq<char>, Seq<u8>>) -> (
    Map<Seq<char>, Seq<u8>>,
    bool,
) {
    if !files.contains_key(table.name) {
        (files, false)
    } else if !files.remove(table.name).contains_key(rows_file_name(table.name)) {
        (files.remove(table.name), false)
    } else {
        drop_indexes(table, files.remove(table.name).remove(rows_file_name(table.name)), 0)
    }
}

/// The row at position `number` of the row file, if the file holds it.
pub open spec fn seek_row_spec(table: TableView, files: Map<Seq<char>, Seq<u8>>, number: int)
    -> Option<Seq<DataView>> {
    let size = row_size(table.columns) as int;
    if !files.contains_key(rows_file_name(table.name)) {
        None
    } else if number * size + size > files[rows_file_name(table.name)].len() {
        None
    } else {
        decode_row_spec(
            files[rows_file_name(table.name)].subrange(number * size, number * size + size),
            table.columns,
        )
    }
}

/// The number of whole rows in a row file.
pub open spec fn row_count(bytes: Seq<u8>, size: nat) -> nat {
    if size == 0 {
        0
    } else {
        bytes.len() / size
    }
}

/// The bytes of those among the first `count` rows whose numbers are not in `deleted`.
pub open spec fn kept_rows_prefix(bytes: Seq<u8>, size: nat, deleted: Seq<u64>, count: int)
    -> Seq<u8>
    decreases count,
{
    if count <= 0 {
        Seq::empty()
    } else if deleted.contains((count - 1) as u64) {
        kept_rows_prefix(bytes, size, deleted, count - 1)
    } else {
        kept_rows_prefix(bytes, size, deleted, count - 1) + bytes.subrange(
            (count - 1) * size,
            count * size,
        )
    }
}

/// The row file without the rows whose numbers are in `deleted`.
pub open spec fn kept_rows(bytes: Seq<u8>, size: nat, deleted: Seq<u64>) -> Seq<u8> {
    kept_rows_prefix(bytes, size, deleted, row_count(bytes, size) as int)
}

/// The table with the index flag of the column at `i` set to `flag`.
pub open spec fn with_indexed(table: TableView, i: int, flag: bool) -> TableView {
    TableView {
        name: table.name,
        columns: table.columns.update(
            i,
            ColumnView {
                name: table.columns[i].name,
                data_type: table.columns[i].data_type,
                is_indexed: flag,
            },
        ),
    }
}

/// Whether `after` is `before` with `encoding` as the index file of the column at `i`, and
/// then the header of the table with that column marked as indexed.
pub open spec fn index_file_written(
    table: TableView,
    rows: Seq<Seq<DataView>>,
    i: int,
    before: Map<Seq<char>, Seq<u8>>,
    after: Map<Seq<char>, Seq<u8>>,
    encoding: Seq<u8>,
) -> bool {
    &&& is_index_encoding(encoding, index_of_rows(rows, i), table.columns[i].data_type)
    &&& after == before.insert(column_index_file(table, i), encoding).insert(
        table.name,
        table_bytes(with_indexed(table, i, true)),
    )
}

/// What adding an index on the column at `i` makes of the files: the index file of the
/// column holds the index of the column over the rows, and the header says that the column
/// is indexed.
pub open spec fn index_added(
    table: TableView,
    rows: Seq<Seq<DataView>>,
    i: int,
    before: Map<Seq<char>, Seq<u8>>,
    after: Map<Seq<char>, Seq<u8>>,
) -> bool {
    exists|encoding: Seq<u8>| #[trigger] index_file_written(table, rows, i, before, after, encoding)
}

fn contains_number(numbers: &Vec<u64>, number: u64) -> (r: bool)
    ensures
        r == numbers@.contains(number),
{
    let n = numbers.len();
    let mut k: usize = 0;
    while k < n
        invariant
            n == numbers@.len(),
            k <= n,
            forall|i: int| 0 <= i < k ==> numbers@[i] != number,
        decreases n - k,
    {
        if numbers[k] == number {
            return true;
        }
        k += 1;
    }
    false
}

impl Table {
    /// The bytes of the row file.
    pub fn read_table_rows_bytes(&self, storage: &Storage) -> (r: Result<
        Vec<u8>,
        PersistenceErrors,
    >)
        requires
            storage.wf(),
        ensures
            match r {
                Ok(bytes) => storage@.contains_key(rows_file_name(self.name@)) && bytes@
                    == storage@[rows_file_name(self.name@)],
                Err(e) => e == PersistenceErrors::TableLoading && !storage@.contains_key(
                    rows_file_name(self.name@),
                ),
            },
    {
        let name = self.table_rows_name();
        match storage.read(name.as_str()) {
            Some(bytes) => Ok(bytes.clone()),
            None => Err(PersistenceErrors::TableLoading),
        }
    }

    /// The rows of the row file, or nothing where the file is missing or does not state
    /// whole rows.
    pub fn read_rows(&self, storage: &Storage) -> (r: Option<Vec<Row>>)
        requires
            storage.wf(),
            self.row_size_fits(),
        ensures
            match r {
                Some(rows) => stored_rows(self@, storage@) == Some(rows_view(rows@)) && rows_fit(
                    rows_view(rows@),
                    self@.columns,
                ),
                None => stored_rows(self@, storage@) is None,
            },
    {
        let name = self.table_rows_name();
        let row_size = self.get_row_size();
        match storage.read(name.as_str()) {
            Some(bytes) => decode_rows(bytes.as_slice(), &self.columns, row_size),
            None => None,
        }
    }

    /// Reads the table of the given name from its header file.
    pub fn load(storage: &Storage, name: String) -> (r: Result<Table, PersistenceErrors>)
        requires
            storage.wf(),
        ensures
            match r {
                Ok(table) => storage@.contains_key(name@) && decode_table_spec(storage@[name@])
                    == Some(table@),
                Err(e) => e == PersistenceErrors::TableLoading && (!storage@.contains_key(name@)
                    || decode_table_spec(storage@[name@]) is None),
            },
    {
        match storage.read(name.as_str()) {
            Some(bytes) => match decode_table(bytes.as_slice()) {
                Some(table) => Ok(table),
                None => Err(PersistenceErrors::TableLoading),
            },
            None => Err(PersistenceErrors::TableLoading),
        }
    }

    /// Reads the index of a column from its index file.
    pub fn get_index(&self, storage: &Storage, column: &Column) -> (r: Result<
        Index,
        PersistenceErrors,
    >)
        requires
            storage.wf(),
        ensures
            match r {
                Ok(index) => storage@.contains_key(index_file_name(self.name@, column.name@))
                    && decode_index_spec(
                    storage@[index_file_name(self.name@, column.name@)],
                    column.data_type,
                ) == Some(index@),
                Err(e) => e == PersistenceErrors::IndexLoading && (!storage@.contains_key(
                    index_file_name(self.name@, column.name@),
                ) || decode_index_spec(
                    storage@[index_file_name(self.name@, column.name@)],
                    column.data_type,
                ) is None),
            },
    {
        let name = self.get_index_file_name(column);
        Index::load(storage, name, column)
    }

    /// Reads the row at position `row_number` of the row file.
    pub fn seek_row(&self, storage: &Storage, row_number: u64) -> (r: Result<
        Row,
        PersistenceErrors,
    >)
        requires
            storage.wf(),
            self.row_size_fits(),
        ensures
            match r {
                Ok(row) => seek_row_spec(self@, storage@, row_number as int) == Some(row@)
                    && row@.len() == self@.columns.len(),
                Err(e) => e == PersistenceErrors::RowSeeking && seek_row_spec(
                    self@,
                    storage@,
                    row_number as int,
                ) is None,
            },
    {
        let name = self.table_rows_name();
        let row_size = self.get_row_size();
        let bytes = match storage.read(name.as_str()) {
            Some(bytes) => bytes,
            None => {
                return Err(PersistenceErrors::RowSeeking);
            },
        };
        let length = bytes.len();
        let from = match row_number.checked_mul(row_size as u64) {
            Some(from) => from,
            None => {
                return Err(PersistenceErrors::RowSeeking);
            },
        };
        if from > length as u64 || (length as u64 - from) < row_size as u64 {
            return Err(PersistenceErrors::RowSeeking);
        }
        let start = from as usize;
        let record = copy_range(bytes.as_slice(), start, start + row_size);
        match decode_row(record.as_slice(), &self.columns) {
            Some(row) => {
                proof {
                    lemma_decoded_row_fits(record@, self@.columns, self@.columns.len() as int);
                }
                Ok(row)
            },
            None => Err(PersistenceErrors::RowSeeking),
        }
    }

    /// Writes the index file of every indexed column anew from the rows of the row file.
    pub fn generate_indexes(&self, storage: &mut Storage) -> (r: Result<(), PersistenceErrors>)
        requires
            old(storage).wf(),
            self.row_size_fits(),
        ensures
            final(storage).wf(),
            match stored_rows(self@, old(storage)@) {
                None => r == Err::<(), PersistenceErrors>(PersistenceErrors::TableLoading)
                    && final(storage)@ == old(storage)@,
                Some(rows) => r == Ok::<(), PersistenceErrors>(()) && indexes_written(
                    self@,
                    rows,
                    old(storage)@,
                    final(storage)@,
                    self@.columns.len() as int,
                ),
            },
    {
        let rows = match self.read_rows(storage) {
            Some(rows) => rows,
            None => {
                return Err(PersistenceErrors::TableLoading);
            },
        };
        let count = self.columns.len();
        let ghost table = self@;
        let ghost all = rows_view(rows@);
        let ghost before = storage@;
        let mut k: usize = 0;
        while k < count
            invariant
                storage.wf(),
                count == self.columns@.len(),
                table == self@,
                all == rows_view(rows@),
                rows_fit(all, table.columns),
                k <= count,
                indexes_written(table, all, before, storage@, k as int),
            decreases count - k,
        {
            let column = &self.columns[k];
            assert(table.columns[k as int] == column@);
            let ghost earlier = storage@;
            if column.is_indexed {
                assert forall|i: int| 0 <= i < rows@.len() implies k < (#[trigger] rows@[i])@.len() by {
                    assert(all[i] == rows@[i]@);
                }
                let index = build_index(&rows, k);
                proof {
                    lemma_index_of_rows_fits(all, table.columns, k as int, all.len() as int);
                }
                let bytes = index.to_bytes(column);
                let name = self.get_index_file_name(column);
                storage.write(name.as_str(), bytes);
                proof {
                    let written = column_index_file(table, k as int);
                    assert(storage@ == earlier.insert(written, bytes@));
                    lemma_index_written(table, all, before, earlier, storage@, k as int, bytes@);
                }
            } else {
                proof {
                    lemma_index_skipped(table, all, before, earlier, k as int);
                }
            }
            k += 1;
        }
        Ok(())
    }

    /// Writes the header file of the table.
    pub fn write_table_header(&self, storage: &mut Storage) -> (r: Result<(), PersistenceErrors>)
        requires
            old(storage).wf(),
        ensures
            final(storage).wf(),
            r == Ok::<(), PersistenceErrors>(()),
            final(storage)@ == old(storage)@.insert(self.name@, table_bytes(self@)),
    {
        storage.write(self.name.as_str(), self.to_bytes());
        Ok(())
    }

    /// Creates the files of the table: the header, an empty row file, and an empty index
    /// file for each indexed column.
    pub fn create(&self, storage: &mut Storage) -> (r: Result<(), PersistenceErrors>)
        requires
            old(storage).wf(),
        ensures
            final(storage).wf(),
            r == Ok::<(), PersistenceErrors>(()),
            final(storage)@ == with_empty_indexes(
                self@,
                old(storage)@.insert(self.name@, table_bytes(self@)).insert(
                    rows_file_name(self.name@),
                    Seq::empty(),
                ),
                self@.columns.len() as int,
            ),
    {
        match self.write_table_header(storage) {
            Ok(_) => {},
            Err(e) => {
                return Err(e);
            },
        }
        let rows_name = self.table_rows_name();
        storage.write(rows_name.as_str(), Vec::new());
        let ghost base = storage@;
        let ghost table = self@;
        let count = self.columns.len();
        let mut k: usize = 0;
        while k < count
            invariant
                storage.wf(),
                count == self.columns@.len(),
                table == self@,
                k <= count,
                storage@ == with_empty_indexes(table, base, k as int),
            decreases count - k,
        {
            let column = &self.columns[k];
            assert(table.columns[k as int] == column@);
            if column.is_indexed {
                let name = self.get_index_file_name(column);
                storage.write(name.as_str(), Vec::new());
            }
            k += 1;
        }
        Ok(())
    }

    /// Removes the files of the table.
    pub fn drop(&self, storage: &mut Storage) -> (r: Result<(), PersistenceErrors>)
        requires
            old(storage).wf(),
        ensures
            final(storage).wf(),
            final(storage)@ == drop_table(self@, old(storage)@).0,
            r == if drop_table(self@, old(storage)@).1 {
                Ok::<(), PersistenceErrors>(())
            } else {
                Err::<(), PersistenceErrors>(PersistenceErrors::TableDrop)
            },
    {
        if !storage.remove(self.name.as_str()) {
            assert(storage@ =~= old(storage)@);
            return Err(PersistenceErrors::TableDrop);
        }
        let rows_name = self.table_rows_name();
        if !storage.remove(rows_name.as_str()) {
            assert(storage@ =~= old(storage)@.remove(self.name@));
            return Err(PersistenceErrors::TableDrop);
        }
        let ghost table = self@;
        let ghost target = drop_table(self@, old(storage)@);
        let count = self.columns.len();
        let mut k: usize = 0;
        while k < count
            invariant
                storage.wf(),
                count == self.columns@.len(),
                table == self@,
                k <= count,
                target == drop_table(self@, old(storage)@),
                target == drop_indexes(table, storage@, k as int),
            decreases count - k,
        {
            let column = &self.columns[k];
            assert(table.columns[k as int] == column@);
            if column.is_indexed {
                let name = self.get_index_file_name(column);
                let ghost earlier = storage@;
                if !storage.remove(name.as_str()) {
                    assert(storage@ =~= earlier);
                    return Err(PersistenceErrors::TableDrop);
                }
            }
            k += 1;
        }
        Ok(())
    }

    /// Adds a row at the end of the row file and writes the indexes anew. The row has a
    /// value for each column, and each string fits its column.
    pub fn insert_row(&self, storage: &mut Storage, row: &Row) -> (r: Result<
        (),
        PersistenceErrors,
    >)
        requires
            old(storage).wf(),
            self.row_size_fits(),
            row@.len() >= self@.columns.len(),
            strings_fit(row@, self@.columns),
        ensures
            final(storage).wf(),
            !old(storage)@.contains_key(rows_file_name(self.name@)) ==> r == Err::<
                (),
                PersistenceErrors,
            >(PersistenceErrors::Insert) && final(storage)@ == old(storage)@,
            old(storage)@.contains_key(rows_file_name(self.name@)) ==> ({
                let appended = old(storage)@.insert(
                    rows_file_name(self.name@),
                    old(storage)@[rows_file_name(self.name@)] + row_bytes(row@, self@.columns),
                );
                match stored_rows(self@, appended) {
                    None => r == Err::<(), PersistenceErrors>(PersistenceErrors::TableLoading)
                        && final(storage)@ == appended,
                    Some(rows) => r == Ok::<(), PersistenceErrors>(()) && indexes_written(
                        self@,
                        rows,
                        appended,
                        final(storage)@,
                        self@.columns.len() as int,
                    ),
                }
            }),
    {
        let name = self.table_rows_name();
        let bytes = row.to_bytes(self.columns.as_slice());
        if !storage.append(name.as_str(), bytes.as_slice()) {
            return Err(PersistenceErrors::Insert);
        }
        self.generate_indexes(storage)
    }

    /// Removes the rows with the given numbers from the row file and writes the indexes
    /// anew. The rows that stay keep their order and are numbered anew.
    pub fn delete_rows(&self, storage: &mut Storage, row_numbers: Vec<u64>) -> (r: Result<
        (),
        PersistenceErrors,
    >)
        requires
            old(storage).wf(),
            self.row_size_fits(),
        ensures
            final(storage).wf(),
            !old(storage)@.contains_key(rows_file_name(self.name@)) ==> r == Err::<
                (),
                PersistenceErrors,
            >(PersistenceErrors::TableLoading) && final(storage)@ == old(storage)@,
            old(storage)@.contains_key(rows_file_name(self.name@)) ==> ({
                let written = old(storage)@.insert(
                    rows_file_name(self.name@),
                    kept_rows(
                        old(storage)@[rows_file_name(self.name@)],
                        row_size(self@.columns),
                        row_numbers@,
                    ),
                );
                match stored_rows(self@, written) {
                    None => r == Err::<(), PersistenceErrors>(PersistenceErrors::TableLoading)
                        && final(storage)@ == written,
                    Some(rows) => r == Ok::<(), PersistenceErrors>(()) && indexes_written(
                        self@,
                        rows,
                        written,
                        final(storage)@,
                        self@.columns.len() as int,
                    ),
                }
            }),
    {
        let rows_bytes = match self.read_table_rows_bytes(storage) {
            Ok(bytes) => bytes,
            Err(e) => {
                return Err(e);
            },
        };
        let row_size = self.get_row_size();
        let length = rows_bytes.len();
        let count: usize = if row_size == 0 {
            0
        } else {
            length / row_size
        };
        let mut new_rows_bytes: Vec<u8> = Vec::new();
        let mut at: usize = 0;
        let mut k: usize = 0;
        proof {
            if row_size > 0 {
                assert((length / row_size) * row_size <= length) by (nonlinear_arith)
                    requires
                        row_size > 0,
                ;
            }
            assert(0 * (row_size as int) == 0);
        }
        while k < count
            invariant
                length == rows_bytes@.len(),
                k <= count,
                count * row_size <= length,
                at == k * row_size,
                new_rows_bytes@ == kept_rows_prefix(
                    rows_bytes@,
                    row_size as nat,
                    row_numbers@,
                    k as int,
                ),
            decreases count - k,
        {
            proof {
                assert((k + 1) * row_size == k * row_size + row_size) by (nonlinear_arith);
                assert((k + 1) * row_size <= count * row_size) by (nonlinear_arith)
                    requires
                        k + 1 <= count,
                ;
            }
            if !contains_number(&row_numbers, k as u64) {
                let record = copy_range(rows_bytes.as_slice(), at, at + row_size);
                push_bytes(&mut new_rows_bytes, record.as_slice());
            }
            at += row_size;
            k += 1;
        }
        let name = self.table_rows_name();
        storage.write(name.as_str(), new_rows_bytes);
        self.generate_indexes(storage)
    }

    /// Marks the column at `column_index` as indexed, writes its index file from the rows
    /// of the row file, and writes the header anew.
    pub fn add_index(&mut self, storage: &mut Storage, column_index: usize) -> (r: Result<
        (),
        PersistenceErrors,
    >)
        requires
            old(storage).wf(),
            old(self).row_size_fits(),
        ensures
            final(storage).wf(),
            column_index >= old(self)@.columns.len() ==> r == Err::<(), PersistenceErrors>(
                PersistenceErrors::IndexCreating,
            ) && final(self)@ == old(self)@ && final(storage)@ == old(storage)@,
            column_index < old(self)@.columns.len() ==> match stored_rows(
                old(self)@,
                old(storage)@,
            ) {
                None => r == Err::<(), PersistenceErrors>(PersistenceErrors::TableLoading)
                    && final(self)@ == old(self)@ && final(storage)@ == old(storage)@,
                Some(rows) => r == Ok::<(), PersistenceErrors>(()) && final(self)@ == with_indexed(
                    old(self)@,
                    column_index as int,
                    true,
                ) && index_added(
                    old(self)@,
                    rows,
                    column_index as int,
                    old(storage)@,
                    final(storage)@,
                ),
            },
    {
        if column_index >= self.columns.len() {
            return Err(PersistenceErrors::IndexCreating);
        }
        let rows = match self.read_rows(storage) {
            Some(rows) => rows,
            None => {
                return Err(PersistenceErrors::TableLoading);
            },
        };
        let ghost all = rows_view(rows@);
        let ghost table = self@;
        let mut column = self.columns[column_index].clone();
        assert(column@ == table.columns[column_index as int]);
        let file_name = self.get_index_file_name(&column);
        column.is_indexed = true;
        assert forall|i: int| 0 <= i < rows@.len() implies column_index < (
        #[trigger] rows@[i])@.len() by {
            assert(all[i] == rows@[i]@);
        }
        let index = build_index(&rows, column_index);
        proof {
            lemma_index_of_rows_fits(all, table.columns, column_index as int, all.len() as int);
        }
        let bytes = index.to_bytes(&column);
        let ghost encoding = bytes@;
        let ghost updated = column@;
        self.columns.set(column_index, column);
        assert(columns_view(self.columns@) =~= table.columns.update(
            column_index as int,
            updated,
        ));
        storage.write(file_name.as_str(), bytes);
        match self.write_table_header(storage) {
            Ok(_) => {},
            Err(e) => {
                return Err(e);
            },
        }
        proof {
            assert(stored_rows(table, old(storage)@) == Some(all));
            assert(self@ == with_indexed(table, column_index as int, true));
            assert(is_index_encoding(
                encoding,
                index_of_rows(all, column_index as int),
                table.columns[column_index as int].data_type,
            ));
            assert(storage@ == old(storage)@.insert(
                column_index_file(table, column_index as int),
                encoding,
            ).insert(table.name, table_bytes(self@)));
            assert(index_file_written(table, all, column_index as int, old(storage)@, storage@, encoding));
        }
        Ok(())
    }

    /// Marks the column at `column_index` as not indexed, writes the header anew, and
    /// removes the index file of the column.
    pub fn remove_index(&mut self, storage: &mut Storage, column_index: usize) -> (r: Result<
        (),
        PersistenceErrors,
    >)
        requires
            old(storage).wf(),
        ensures
            final(storage).wf(),
            column_index >= old(self)@.columns.len() ==> r == Err::<(), PersistenceErrors>(
                PersistenceErrors::IndexCreating,
            ) && final(self)@ == old(self)@ && final(storage)@ == old(storage)@,
            column_index < old(self)@.columns.len() ==> ({
                let written = old(storage)@.insert(old(self)@.name, table_bytes(final(self)@));
                let file = column_index_file(old(self)@, column_index as int);
                &&& final(self)@ == with_indexed(old(self)@, column_index as int, false)
                &&& final(storage)@ == written.remove(file)
                &&& r == if written.contains_key(file) {
                    Ok::<(), PersistenceErrors>(())
                } else {
                    Err::<(), PersistenceErrors>(PersistenceErrors::TableDrop)
                }
            }),
    {
        if column_index >= self.columns.len() {
            return Err(PersistenceErrors::IndexCreating);
        }
        let ghost table = self@;
        let mut column = self.columns[column_index].clone();
        assert(column@ == table.columns[column_index as int]);
        let file_name = self.get_index_file_name(&column);
        column.is_indexed = false;
        let ghost updated = column@;
        self.columns.set(column_index, column);
        assert(columns_view(self.columns@) =~= table.columns.update(
            column_index as int,
            updated,
        ));
        match self.write_table_header(storage) {
            Ok(_) => {},
            Err(e) => {
                return Err(e);
            },
        }
        if storage.remove(file_name.as_str()) {
            Ok(())
        } else {
            Err(PersistenceErrors::TableDrop)
        }
    }
}

proof fn lemma_index_written(
    table: TableView,
    rows: Seq<Seq<DataView>>,
    before: Map<Seq<char>, Seq<u8>>,
    earlier: Map<Seq<char>, Seq<u8>>,
    after: Map<Seq<char>, Seq<u8>>,
    k: int,
    bytes: Seq<u8>,
)
    requires
        0 <= k < table.columns.len(),
        table.columns[k].is_indexed,
        indexes_written(table, rows, before, earlier, k),
        after == earlier.insert(column_index_file(table, k), bytes),
        is_index_encoding(bytes, index_of_rows(rows, k), table.columns[k].data_type),
    ensures
        indexes_written(table, rows, before, after, k + 1),
{
    let written = column_index_file(table, k);
    assert forall|name: Seq<char>| writes_index_file(table, name, k + 1) == (writes_index_file(
        table,
        name,
        k,
    ) || name == written) by {
        if writes_index_file(table, name, k + 1) {
            let i = choose|i: int|
                0 <= i < k + 1 && table.columns[i].is_indexed && #[trigger] column_index_file(
                    table,
                    i,
                ) == name;
            if i < k {
                assert(writes_index_file(table, name, k));
            }
        }
        if writes_index_file(table, name, k) {
            let i = choose|i: int|
                0 <= i < k && table.columns[i].is_indexed && #[trigger] column_index_file(table, i)
                    == name;
            assert(0 <= i < k + 1 && table.columns[i].is_indexed && column_index_file(table, i)
                == name);
        }
        if name == written {
            assert(column_index_file(table, k) == name);
        }
    }
    assert forall|i: int|
        0 <= i < k + 1 && table.columns[i].is_indexed && is_last_writer(
            table,
            i,
            k + 1,
        ) implies is_index_encoding(
        #[trigger] after[column_index_file(table, i)],
        index_of_rows(rows, i),
        table.columns[i].data_type,
    ) by {
        if i < k {
            assert(column_index_file(table, k) != column_index_file(table, i));
            assert(is_last_writer(table, i, k));
        }
    }
}

proof fn lemma_index_skipped(
    table: TableView,
    rows: Seq<Seq<DataView>>,
    before: Map<Seq<char>, Seq<u8>>,
    after: Map<Seq<char>, Seq<u8>>,
    k: int,
)
    requires
        0 <= k < table.columns.len(),
        !table.columns[k].is_indexed,
        indexes_written(table, rows, before, after, k),
    ensures
        indexes_written(table, rows, before, after, k + 1),
{
    assert forall|name: Seq<char>| writes_index_file(table, name, k + 1) == writes_index_file(
        table,
        name,
        k,
    ) by {
        if writes_index_file(table, name, k + 1) {
            let i = choose|i: int|
                0 <= i < k + 1 && table.columns[i].is_indexed && #[trigger] column_index_file(
                    table,
                    i,
                ) == name;
            assert(writes_index_file(table, name, k));
        }
        if writes_index_file(table, name, k) {
            let i = choose|i: int|
                0 <= i < k && table.columns[i].is_indexed && #[trigger] column_index_file(table, i)
                    == name;
            assert(0 <= i < k + 1 && table.columns[i].is_indexed && column_index_file(table, i)
                == name);
        }
    }
    assert forall|i: int|
        0 <= i < k + 1 && table.columns[i].is_indexed && is_last_writer(
            table,
            i,
            k + 1,
        ) implies is_index_encoding(
        #[trigger] after[column_index_file(table, i)],
        index_of_rows(rows, i),
        table.columns[i].data_type,
    ) by {
        assert(is_last_writer(table, i, k));
    }
}

proof fn lemma_rows_then_appended(
    bytes: Seq<u8>,
    columns: Seq<ColumnView>,
    row: Seq<DataView>,
    at: int,
    acc: Seq<Seq<DataView>>,
)
    requires
        0 <= at <= bytes.len(),
        row_size(columns) > 0,
        row_storable(row, columns),
        decode_rows_from(bytes, columns, at, acc) is Some,
    ensures
        decode_rows_from(bytes + row_bytes(row, columns), columns, at, acc) == Some(
            decode_rows_from(bytes, columns, at, acc)->0.push(row),
        ),
    decreases bytes.len() - at,
{
    let size = row_size(columns) as int;
    let added = row_bytes(row, columns);
    let longer = bytes + added;
    law_row_round_trip(row, columns, Seq::empty());
    assert(added + Seq::<u8>::empty() =~= added);
    if at < bytes.len() {
        assert(at + size <= bytes.len());
        assert(longer.subrange(at, at + size) =~= bytes.subrange(at, at + size));
        let read = decode_row_spec(bytes.subrange(at, at + size), columns)->0;
        lemma_rows_then_appended(bytes, columns, row, at + size, acc.push(read));
        assert(decode_rows_from(longer, columns, at, acc) == decode_rows_from(
            longer,
            columns,
            at + size,
            acc.push(read),
        ));
    } else {
        assert(added.len() == size);
        assert(longer.len() == at + size);
        assert(longer.subrange(at, at + size) =~= added);
        assert(decode_row_spec(added, columns) == Some(row));
        assert(decode_rows_from(longer, columns, at + size, acc.push(row)) == Some(
            acc.push(row),
        ));
        assert(decode_rows_from(bytes, columns, at, acc) == Some(acc));
    }
}

/// A storable row added at the end of a row file is read back behind the rows that the
/// file held: an insert adds one row and changes no other.
pub proof fn law_appended_row_is_stored(
    bytes: Seq<u8>,
    columns: Seq<ColumnView>,
    row: Seq<DataView>,
)
    requires
        row_size(columns) > 0,
        row_storable(row, columns),
        decode_rows_spec(bytes, columns) is Some,
    ensures
        decode_rows_spec(bytes + row_bytes(row, columns), columns) == Some(
            decode_rows_spec(bytes, columns)->0.push(row),
        ),
{
    lemma_rows_then_appended(bytes, columns, row, 0, Seq::empty());
}

/// The values of a column in the first `count` rows that have the given hash, each with the
/// number of its row, in the order of the rows.
pub open spec fn entries_with_hash(rows: Seq<Seq<DataView>>, column: int, hash: u64, count: int)
    -> Seq<(DataView, u64)>
    decreases count,
{
    if count <= 0 {
        Seq::empty()
    } else if data_hash(rows[count - 1][column]) == hash {
        entries_with_hash(rows, column, hash, count - 1).push(
            (rows[count - 1][column], (count - 1) as u64),
        )
    } else {
        entries_with_hash(rows, column, hash, count - 1)
    }
}

/// The numbers of those among the first `count` rows whose value in the column equals
/// `value`, in the order of the rows.
pub open spec fn rows_with_value(rows: Seq<Seq<DataView>>, column: int, value: DataView, count: int)
    -> Seq<u64>
    decreases count,
{
    if count <= 0 {
        Seq::empty()
    } else if rows[count - 1][column].equal(value) {
        rows_with_value(rows, column, value, count - 1).push((count - 1) as u64)
    } else {
        rows_with_value(rows, column, value, count - 1)
    }
}

/// The row numbers of those entries whose value equals `value`, in the order of the
/// entries.
pub open spec fn entries_with_value(entries: Seq<(DataView, u64)>, value: DataView, count: int)
    -> Seq<u64>
    decreases count,
{
    if count <= 0 {
        Seq::empty()
    } else if entries[count - 1].0.equal(value) {
        entries_with_value(entries, value, count - 1).push(entries[count - 1].1)
    } else {
        entries_with_value(entries, value, count - 1)
    }
}

/// The bucket of a hash in the index of a column holds the values of the column with that
/// hash, in the order of the rows.
pub proof fn law_bucket_holds_rows_of_its_hash(
    rows: Seq<Seq<DataView>>,
    column: int,
    hash: u64,
    count: int,
)
    requires
        0 <= count <= rows.len(),
    ensures
        bucket_values(index_prefix(rows, column, count), hash) == entries_with_hash(
            rows,
            column,
            hash,
            count,
        ),
        index_prefix(rows, column, count).contains_key(hash) ==> index_prefix(
            rows,
            column,
            count,
        )[hash].hash == hash,
    decreases count,
{
    if count > 0 {
        law_bucket_holds_rows_of_its_hash(rows, column, hash, count - 1);
        law_bucket_holds_rows_of_its_hash(
            rows,
            column,
            data_hash(rows[count - 1][column]),
            count - 1,
        );
    }
}

proof fn lemma_entries_with_value_of_hash(
    rows: Seq<Seq<DataView>>,
    column: int,
    value: DataView,
    count: int,
)
    requires
        0 <= count <= rows.len(),
    ensures
        ({
            let entries = entries_with_hash(rows, column, data_hash(value), count);
            entries_with_value(entries, value, entries.len() as int) == rows_with_value(
                rows,
                column,
                value,
                count,
            )
        }),
    decreases count,
{
    if count > 0 {
        lemma_entries_with_value_of_hash(rows, column, value, count - 1);
        let cell = rows[count - 1][column];
        let shorter = entries_with_hash(rows, column, data_hash(value), count - 1);
        let entries = entries_with_hash(rows, column, data_hash(value), count);
        if cell.equal(value) {
            law_equal_values_hash_equally(cell, value);
        }
        if data_hash(cell) == data_hash(value) {
            assert(entries == shorter.push((cell, (count - 1) as u64)));
            lemma_entries_with_value_prefix(entries, shorter, value, shorter.len() as int);
        }
    }
}

proof fn lemma_entries_with_value_prefix(
    longer: Seq<(DataView, u64)>,
    shorter: Seq<(DataView, u64)>,
    value: DataView,
    count: int,
)
    requires
        0 <= count <= shorter.len(),
        shorter.is_prefix_of(longer),
    ensures
        entries_with_value(longer, value, count) == entries_with_value(shorter, value, count),
    decreases count,
{
    if count > 0 {
        lemma_entries_with_value_prefix(longer, shorter, value, count - 1);
    }
}

/// Looking a value up in the index of a column finds the rows that hold an equal value in
/// that column, in the order of the row file: the entries of the value's bucket that hold
/// an equal value are exactly those rows.
pub proof fn law_index_finds_rows_with_value(
    rows: Seq<Seq<DataView>>,
    column: int,
    value: DataView,
)
    ensures
        ({
            let entries = bucket_values(index_of_rows(rows, column), data_hash(value));
            entries_with_value(entries, value, entries.len() as int) == rows_with_value(
                rows,
                column,
                value,
                rows.len() as int,
            )
        }),
{
    law_bucket_holds_rows_of_its_hash(rows, column, data_hash(value), rows.len() as int);
    lemma_entries_with_value_of_hash(rows, column, value, rows.len() as int);
}


/// Whether every row has one storable value for each column.
pub open spec fn rows_storable(rows: Seq<Seq<DataView>>, columns: Seq<ColumnView>) -> bool {
    forall|r: int| 0 <= r < rows.len() ==> row_storable(#[trigger] rows[r], columns)
}

proof fn lemma_entries_with_hash_storable(
    rows: Seq<Seq<DataView>>,
    columns: Seq<ColumnView>,
    column: int,
    hash: u64,
    count: int,
)
    requires
        rows_storable(rows, columns),
        0 <= column < columns.len(),
        0 <= count <= rows.len(),
    ensures
        entries_storable(
            entries_with_hash(rows, column, hash, count),
            columns[column].data_type,
        ),
        entries_with_hash(rows, column, hash, count).len() <= count,
    decreases count,
{
    if count > 0 {
        lemma_entries_with_hash_storable(rows, columns, column, hash, count - 1);
        let shorter = entries_with_hash(rows, column, hash, count - 1);
        let entries = entries_with_hash(rows, column, hash, count);
        assert(row_storable(rows[count - 1], columns));
        assert forall|i: int| 0 <= i < entries.len() implies storable(
            (#[trigger] entries[i]).0,
            columns[column].data_type,
        ) by {
            if i < shorter.len() {
                assert(entries[i] == shorter[i]);
            }
        }
    }
}

/// The index file that the store writes for a column is read back as the index of that
/// column over the rows, as long as the rows hold storable values and are few enough for
/// the length of a bucket to fit in 64 bits.
pub proof fn law_written_index_is_read_back(
    rows: Seq<Seq<DataView>>,
    columns: Seq<ColumnView>,
    column: int,
    bytes: Seq<u8>,
)
    requires
        0 <= column < columns.len(),
        rows_storable(rows, columns),
        rows.len() * (data_type_size(columns[column].data_type) + 8) <= u64::MAX,
        is_index_encoding(bytes, index_of_rows(rows, column), columns[column].data_type),
    ensures
        decode_index_spec(bytes, columns[column].data_type) == Some(index_of_rows(rows, column)),
{
    let data_type = columns[column].data_type;
    let width = data_type_size(data_type) + 8;
    let index = index_of_rows(rows, column);
    let count = rows.len() as int;
    assert forall|key: u64| #[trigger] index.contains_key(key) implies index[key].hash == key
        && entries_storable(index[key].values, data_type) && entries_bytes(
        index[key].values,
        data_type,
    ).len() <= u64::MAX by {
        law_bucket_holds_rows_of_its_hash(rows, column, key, count);
        lemma_entries_with_hash_storable(rows, columns, column, key, count);
        let entries = index[key].values;
        lemma_entries_length(entries, data_type, entries.len() as int);
        assert(entries.len() * width <= count * width) by (nonlinear_arith)
            requires
                entries.len() <= count,
                width >= 0,
        ;
    }
    law_index_encoding_decodes(bytes, index, data_type);
}

} // verus!
