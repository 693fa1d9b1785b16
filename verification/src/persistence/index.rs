//! Hash-bucket indexes and their byte format.
use vstd::prelude::*;
use vstd::pervasive::unreached;
use vstd::utf8::*;
use std::collections::HashMap;
use crate::common::db::{Column, Data, DataType, DataView};
use crate::persistence::bytes::{
    be64,
    be64_value,
    copy_range,
    lemma_be64_round_trip,
    lemma_piece_at,
    push_be64,
    push_bytes,
    read_be64,
};
use crate::persistence::column::{data_type_size, PersistenceColumn};
use crate::persistence::errors::PersistenceErrors;
use crate::persistence::storage::Storage;
use crate::persistence::row::{
    data_bytes,
    decode_data,
    decode_data_spec,
    lemma_data_round_trip,
    storable,
    PersistenceData,
};

verus! {

/// One bucket of an index: a hash, and the values with that hash, each with the number of
/// the row that holds it.
#[derive(PartialEq, Debug)]
pub struct IndexRow {
    pub hash: u64,
    pub values: Vec<(Data, u64)>,
}

/// What an `IndexRow` is, over the views of its values.
pub struct IndexRowView {
    pub hash: u64,
    pub values: Seq<(DataView, u64)>,
}

/// The views of the entries of a bucket.
pub open spec fn entries_view(values: Seq<(Data, u64)>) -> Seq<(DataView, u64)> {
    values.map_values(|e: (Data, u64)| (e.0@, e.1))
}

impl View for IndexRow {
    type V = IndexRowView;

    open spec fn view(&self) -> IndexRowView {
        IndexRowView { hash: self.hash, values: entries_view(self.values@) }
    }
}

/// An index of one column: its buckets by their hashes.
#[derive(PartialEq, Debug)]
pub struct Index {
    pub rows: HashMap<u64, IndexRow>,
}

impl View for Index {
    type V = Map<u64, IndexRowView>;

    open spec fn view(&self) -> Map<u64, IndexRowView> {
        self.rows@.map_values(|row: IndexRow| row@)
    }
}

/// The bytes of one entry: the value in the format of the column, then the row number as a
/// big-endian 64-bit number.
pub open spec fn entry_bytes(entry: (DataView, u64), data_type: DataType) -> Seq<u8> {
    data_bytes(entry.0, data_type_size(data_type), data_type) + be64(entry.1)
}

/// The bytes of the first `count` entries of a bucket.
pub open spec fn entries_prefix(values: Seq<(DataView, u64)>, data_type: DataType, count: int)
    -> Seq<u8>
    decreases count,
{
    if count <= 0 {
        Seq::empty()
    } else {
        entries_prefix(values, data_type, count - 1) + entry_bytes(values[count - 1], data_type)
    }
}

/// The bytes of all entries of a bucket.
pub open spec fn entries_bytes(values: Seq<(DataView, u64)>, data_type: DataType) -> Seq<u8> {
    entries_prefix(values, data_type, values.len() as int)
}

/// The record of a bucket: the length of its entries in bytes and its hash, each as a
/// big-endian 64-bit number, then the entries.
pub open spec fn bucket_bytes(row: IndexRowView, data_type: DataType) -> Seq<u8> {
    be64(entries_bytes(row.values, data_type).len() as u64) + be64(row.hash) + entries_bytes(
        row.values,
        data_type,
    )
}

/// The entries that `remaining` bytes at `at` state, added to `acc`, if they state entries.
pub open spec fn decode_entries(
    bytes: Seq<u8>,
    data_type: DataType,
    at: int,
    remaining: int,
    acc: Seq<(DataView, u64)>,
) -> Option<Seq<(DataView, u64)>>
    decreases remaining,
{
    let size = data_type_size(data_type) as int;
    if remaining <= 0 {
        Some(acc)
    } else if remaining < size + 8 || at < 0 || at + size + 8 > bytes.len() {
        None
    } else {
        match decode_data_spec(bytes.subrange(at, at + size), data_type) {
            None => None,
            Some(value) => decode_entries(
                bytes,
                data_type,
                at + size + 8,
                remaining - (size + 8),
                acc.push((value, be64_value(bytes.subrange(at + size, at + size + 8)))),
            ),
        }
    }
}

/// The bucket that a record states, if it states one. Bytes behind the record are ignored.
pub open spec fn decode_bucket_spec(bytes: Seq<u8>, data_type: DataType) -> Option<IndexRowView> {
    if bytes.len() < 16 {
        None
    } else {
        let payload = be64_value(bytes.subrange(0, 8));
        let hash = be64_value(bytes.subrange(8, 16));
        match decode_entries(bytes, data_type, 16, payload as int, Seq::empty()) {
            None => None,
            Some(values) => Some(IndexRowView { hash, values }),
        }
    }
}

/// Whether every string among the entries fits the column.
pub open spec fn entries_fit(values: Seq<(DataView, u64)>, data_type: DataType) -> bool {
    forall|i: int|
        0 <= i < values.len() ==> ((#[trigger] values[i]).0 matches DataView::STRING(s)
            ==> encode_utf8(s).len() <= data_type_size(data_type))
}

fn encode_entries(values: &Vec<(Data, u64)>, column: &Column) -> (r: Vec<u8>)
    requires
        entries_fit(entries_view(values@), column.data_type),
    ensures
        r@ == entries_bytes(entries_view(values@), column.data_type),
{
    let count = values.len();
    let column_size = column.size();
    let ghost entries = entries_view(values@);
    let mut out: Vec<u8> = Vec::new();
    let mut k: usize = 0;
    while k < count
        invariant
            count == values@.len(),
            entries == entries_view(values@),
            entries_fit(entries, column.data_type),
            column_size == data_type_size(column.data_type),
            k <= count,
            out@ == entries_prefix(entries, column.data_type, k as int),
        decreases count - k,
    {
        let entry = &values[k];
        assert(entries[k as int] == (entry.0@, entry.1));
        let cell = entry.0.to_bytes(column_size, &column.data_type);
        push_bytes(&mut out, cell.as_slice());
        push_be64(&mut out, entry.1);
        assert(out@ =~= entries_prefix(entries, column.data_type, k + 1));
        k += 1;
    }
    out
}

/// Reads a bucket from its record, or nothing where the bytes state none.
pub fn decode_bucket(bytes: &[u8], column: &Column) -> (r: Option<IndexRow>)
    ensures
        match r {
            Some(row) => decode_bucket_spec(bytes@, column.data_type) == Some(row@),
            None => decode_bucket_spec(bytes@, column.data_type) is None,
        },
{
    let n = bytes.len();
    if n < 16 {
        return None;
    }
    let payload = read_be64(bytes, 0);
    let hash = read_be64(bytes, 8);
    let column_size = column.size();
    let mut values: Vec<(Data, u64)> = Vec::new();
    let mut cursor: usize = 16;
    let mut remaining: u64 = payload;
    assert(entries_view(values@) =~= Seq::<(DataView, u64)>::empty());
    while remaining != 0
        invariant
            n == bytes@.len(),
            column_size == data_type_size(column.data_type),
            16 <= cursor <= n,
            payload == be64_value(bytes@.subrange(0, 8)),
            hash == be64_value(bytes@.subrange(8, 16)),
            decode_entries(bytes@, column.data_type, 16, payload as int, Seq::empty())
                == decode_entries(
                bytes@,
                column.data_type,
                cursor as int,
                remaining as int,
                entries_view(values@),
            ),
        decreases remaining,
    {
        if remaining < column_size as u64 + 8 || column_size > n - cursor || n - cursor
            - column_size < 8 {
            return None;
        }
        let cell = copy_range(bytes, cursor, cursor + column_size);
        let value = match decode_data(cell.as_slice(), &column.data_type) {
            Some(value) => value,
            None => {
                return None;
            },
        };
        let row_number = read_be64(bytes, cursor + column_size);
        let ghost before = entries_view(values@);
        values.push((value, row_number));
        assert(entries_view(values@) =~= before.push((value@, row_number)));
        cursor = cursor + column_size + 8;
        remaining = remaining - (column_size as u64 + 8);
    }
    Some(IndexRow { hash, values })
}

impl IndexRow {
    /// Writes the bucket as a record in the format of the column. Each string fits the
    /// column.
    pub fn to_bytes(&self, column: &Column) -> (r: Vec<u8>)
        requires
            entries_fit(self@.values, column.data_type),
        ensures
            r@ == bucket_bytes(self@, column.data_type),
    {
        let entries = encode_entries(&self.values, column);
        let mut out: Vec<u8> = Vec::new();
        push_be64(&mut out, entries.len() as u64);
        push_be64(&mut out, self.hash);
        push_bytes(&mut out, entries.as_slice());
        out
    }

    /// Reads the 64-bit number that the eight bytes at `cursor` write.
    pub fn parse_u64(bytes: &[u8], cursor: usize) -> (r: u64)
        requires
            cursor + 8 <= bytes@.len(),
        ensures
            r == be64_value(bytes@.subrange(cursor as int, cursor + 8)),
    {
        read_be64(bytes, cursor)
    }

    /// Reads a bucket from a record that states one.
    pub fn from_bytes(bytes: Vec<u8>, column: &Column) -> (r: IndexRow)
        requires
            decode_bucket_spec(bytes@, column.data_type) is Some,
        ensures
            Some(r@) == decode_bucket_spec(bytes@, column.data_type),
    {
        match decode_bucket(bytes.as_slice(), column) {
            Some(row) => row,
            None => unreached(),
        }
    }
}

/// Whether every value of a bucket comes back unchanged from the bytes of the column.
pub open spec fn entries_storable(values: Seq<(DataView, u64)>, data_type: DataType) -> bool {
    forall|i: int| 0 <= i < values.len() ==> storable((#[trigger] values[i]).0, data_type)
}

proof fn lemma_entries_prefix_is_prefix(
    values: Seq<(DataView, u64)>,
    data_type: DataType,
    count: int,
    total: int,
)
    requires
        0 <= count <= total,
    ensures
        entries_prefix(values, data_type, count).is_prefix_of(
            entries_prefix(values, data_type, total),
        ),
    decreases total - count,
{
    if count < total {
        lemma_entries_prefix_is_prefix(values, data_type, count, total - 1);
    }
}

proof fn lemma_entry_at(
    values: Seq<(DataView, u64)>,
    data_type: DataType,
    before: Seq<u8>,
    rest: Seq<u8>,
    k: int,
)
    requires
        entries_storable(values, data_type),
        0 <= k < values.len(),
    ensures
        ({
            let bytes = before + entries_bytes(values, data_type) + rest;
            let size = data_type_size(data_type) as int;
            let at = (before.len() + entries_prefix(values, data_type, k).len()) as int;
            &&& entries_prefix(values, data_type, k + 1).len() == entries_prefix(
                values,
                data_type,
                k,
            ).len() + size + 8
            &&& entries_prefix(values, data_type, k + 1).len() <= entries_bytes(
                values,
                data_type,
            ).len()
            &&& at + size + 8 <= bytes.len()
            &&& bytes.subrange(at, at + size) == data_bytes(
                values[k].0,
                data_type_size(data_type),
                data_type,
            )
            &&& bytes.subrange(at + size, at + size + 8) == be64(values[k].1)
        }),
{
    let n = values.len() as int;
    let size = data_type_size(data_type) as int;
    let full = entries_bytes(values, data_type);
    let shorter = entries_prefix(values, data_type, k);
    let longer = entries_prefix(values, data_type, k + 1);
    let cell = data_bytes(values[k].0, data_type_size(data_type), data_type);
    let number = be64(values[k].1);
    assert(cell.len() == size) by {
        lemma_data_round_trip(values[k].0, data_type);
    }
    assert(number.len() == 8) by {
        lemma_be64_round_trip(values[k].1);
    }
    assert(longer.is_prefix_of(full)) by {
        lemma_entries_prefix_is_prefix(values, data_type, k + 1, n);
    }
    assert(longer == shorter + (cell + number));
    lemma_pieces_at(before, shorter, cell, number, longer, full, rest);
}

proof fn lemma_pieces_at(
    before: Seq<u8>,
    shorter: Seq<u8>,
    cell: Seq<u8>,
    number: Seq<u8>,
    longer: Seq<u8>,
    full: Seq<u8>,
    rest: Seq<u8>,
)
    requires
        longer == shorter + (cell + number),
        longer.is_prefix_of(full),
    ensures
        ({
            let bytes = before + full + rest;
            let at = (before.len() + shorter.len()) as int;
            &&& longer.len() == shorter.len() + cell.len() + number.len()
            &&& longer.len() <= full.len()
            &&& at + cell.len() + number.len() <= bytes.len()
            &&& bytes.subrange(at, at + cell.len()) == cell
            &&& bytes.subrange(at + cell.len(), at + cell.len() + number.len()) == number
        }),
{
    let bytes = before + full + rest;
    let at = (before.len() + shorter.len()) as int;
    assert(longer =~= full.subrange(0, longer.len() as int));
    assert forall|i: int| 0 <= i < cell.len() implies bytes[at + i] == cell[i] by {
        assert(bytes[at + i] == full[shorter.len() + i]);
        assert(full[shorter.len() + i] == longer[shorter.len() + i]);
    }
    assert forall|i: int| 0 <= i < number.len() implies bytes[at + cell.len() + i]
        == number[i] by {
        assert(bytes[at + cell.len() + i] == full[shorter.len() + cell.len() + i]);
        assert(full[shorter.len() + cell.len() + i] == longer[shorter.len() + cell.len() + i]);
    }
    assert(bytes.subrange(at, at + cell.len()) =~= cell);
    assert(bytes.subrange(at + cell.len(), at + cell.len() + number.len()) =~= number);
}

proof fn lemma_entries_round_trip(
    values: Seq<(DataView, u64)>,
    data_type: DataType,
    before: Seq<u8>,
    rest: Seq<u8>,
    k: int,
)
    requires
        entries_storable(values, data_type),
        0 <= k <= values.len(),
    ensures
        decode_entries(
            before + entries_bytes(values, data_type) + rest,
            data_type,
            (before.len() + entries_prefix(values, data_type, k).len()) as int,
            entries_bytes(values, data_type).len() - entries_prefix(values, data_type, k).len(),
            values.subrange(0, k),
        ) == Some(values),
    decreases values.len() - k,
{
    let n = values.len() as int;
    if k == n {
        assert(values.subrange(0, k) =~= values);
    } else {
        lemma_entry_at(values, data_type, before, rest, k);
        lemma_data_round_trip(values[k].0, data_type);
        lemma_be64_round_trip(values[k].1);
        assert(values.subrange(0, k).push(values[k]) =~= values.subrange(0, k + 1));
        lemma_entries_round_trip(values, data_type, before, rest, k + 1);
    }
}

/// A bucket of storable values read back from its record is the same bucket, whatever
/// bytes follow the record.
pub proof fn lemma_bucket_round_trip(row: IndexRowView, data_type: DataType, rest: Seq<u8>)
    requires
        entries_storable(row.values, data_type),
        entries_bytes(row.values, data_type).len() <= u64::MAX,
    ensures
        decode_bucket_spec(bucket_bytes(row, data_type) + rest, data_type) == Some(row),
        bucket_bytes(row, data_type).len() == 16 + entries_bytes(row.values, data_type).len(),
        be64_value((bucket_bytes(row, data_type) + rest).subrange(0, 8)) == entries_bytes(
            row.values,
            data_type,
        ).len(),
{
    let entries = entries_bytes(row.values, data_type);
    let payload = entries.len() as u64;
    let header = be64(payload) + be64(row.hash);
    let bytes = bucket_bytes(row, data_type) + rest;
    lemma_be64_round_trip(payload);
    lemma_be64_round_trip(row.hash);
    assert(bytes.subrange(0, 8) =~= be64(payload));
    assert(bytes.subrange(8, 16) =~= be64(row.hash));
    assert(bytes =~= header + entries + rest);
    lemma_entries_round_trip(row.values, data_type, header, rest, 0);
    assert(row.values.subrange(0, 0) =~= Seq::<(DataView, u64)>::empty());
}

/// The records of the first `count` buckets, one after the other.
pub open spec fn buckets_prefix(rows: Seq<IndexRowView>, data_type: DataType, count: int) -> Seq<
    u8,
>
    decreases count,
{
    if count <= 0 {
        Seq::empty()
    } else {
        buckets_prefix(rows, data_type, count - 1) + bucket_bytes(rows[count - 1], data_type)
    }
}

/// The records of a sequence of buckets, one after the other.
pub open spec fn buckets_bytes(rows: Seq<IndexRowView>, data_type: DataType) -> Seq<u8> {
    buckets_prefix(rows, data_type, rows.len() as int)
}

/// The index that the records from `at` on state, added to `acc`, if they state buckets.
/// A bucket replaces an earlier one with the same hash.
pub open spec fn decode_index_from(
    bytes: Seq<u8>,
    data_type: DataType,
    at: int,
    acc: Map<u64, IndexRowView>,
) -> Option<Map<u64, IndexRowView>>
    decreases bytes.len() - at,
{
    if at < 0 || at >= bytes.len() {
        Some(acc)
    } else if at + 16 > bytes.len() {
        None
    } else {
        let end = at + 16 + be64_value(bytes.subrange(at, at + 8));
        if end > bytes.len() {
            None
        } else {
            match decode_bucket_spec(bytes.subrange(at, end), data_type) {
                None => None,
                Some(row) => decode_index_from(bytes, data_type, end, acc.insert(row.hash, row)),
            }
        }
    }
}

/// The index that the bytes of an index file state, if they state one.
pub open spec fn decode_index_spec(bytes: Seq<u8>, data_type: DataType) -> Option<
    Map<u64, IndexRowView>,
> {
    decode_index_from(bytes, data_type, 0, Map::empty())
}

/// Whether `order` lists the hashes of the index, each once.
pub open spec fn lists_keys(order: Seq<u64>, index: Map<u64, IndexRowView>) -> bool {
    order.no_duplicates() && forall|key: u64| order.contains(key) <==> index.contains_key(key)
}

/// The buckets of an index in the order of the listed hashes.
pub open spec fn buckets_in_order(index: Map<u64, IndexRowView>, order: Seq<u64>) -> Seq<
    IndexRowView,
> {
    order.map_values(|key: u64| index[key])
}

/// Whether bytes are the records of the index's buckets, in some order.
pub open spec fn is_index_encoding(
    bytes: Seq<u8>,
    index: Map<u64, IndexRowView>,
    data_type: DataType,
) -> bool {
    exists|order: Seq<u64>| #[trigger]
        lists_keys(order, index) && bytes == buckets_bytes(
            buckets_in_order(index, order),
            data_type,
        )
}

/// Whether every string in the index fits the column.
pub open spec fn index_fits(index: Map<u64, IndexRowView>, data_type: DataType) -> bool {
    forall|key: u64| #[trigger]
        index.contains_key(key) ==> entries_fit(index[key].values, data_type)
}

fn index_keys(rows: &HashMap<u64, IndexRow>) -> (r: Vec<u64>)
    ensures
        r@.no_duplicates(),
        forall|key: u64| r@.contains(key) <==> rows@.contains_key(key),
{
    broadcast use vstd::std_specs::hash::group_hash_axioms;

    let mut keys: Vec<u64> = Vec::new();
    for key in it: rows.keys()
        invariant
            it.seq().no_duplicates(),
            it.seq().unref().to_set() == rows@.dom(),
            keys@ == it.seq().subrange(0, it.index() as int).map_values(|k: &u64| *k),
            keys@.no_duplicates(),
            it.index() == it.seq().len() ==> forall|key: u64|
                keys@.contains(key) <==> rows@.contains_key(key),
    {
        keys.push(*key);
        proof {
            assert(keys@ =~= it.seq().subrange(0, it.index() + 1).map_values(|k: &u64| *k));
            assert forall|i: int, j: int| 0 <= i < keys@.len() && 0 <= j < keys@.len() && i
                != j implies keys@[i] != keys@[j] by {
                assert(it.seq()[i] != it.seq()[j]);
            }
            assert forall|key: u64| it.index() + 1 == it.seq().len() implies (keys@.contains(key)
                <==> rows@.contains_key(key)) by {
                assert(keys@ =~= it.seq().unref());
                assert(keys@.contains(key) <==> keys@.to_set().contains(key));
            }
        }
    }
    keys
}

/// Reads an index from the bytes of an index file, or nothing where they state none.
pub fn decode_index(bytes: &[u8], column: &Column) -> (r: Option<Index>)
    ensures
        match r {
            Some(index) => decode_index_spec(bytes@, column.data_type) == Some(index@),
            None => decode_index_spec(bytes@, column.data_type) is None,
        },
{
    broadcast use vstd::std_specs::hash::group_hash_axioms;

    let n = bytes.len();
    let mut rows: HashMap<u64, IndexRow> = HashMap::new();
    let mut cursor: usize = 0;
    assert(rows@.map_values(|row: IndexRow| row@) =~= Map::<u64, IndexRowView>::empty());
    while cursor < n
        invariant
            n == bytes@.len(),
            cursor <= n,
            decode_index_spec(bytes@, column.data_type) == decode_index_from(
                bytes@,
                column.data_type,
                cursor as int,
                rows@.map_values(|row: IndexRow| row@),
            ),
        decreases n - cursor,
    {
        if n - cursor < 16 {
            return None;
        }
        let payload = IndexRow::parse_u64(bytes, cursor);
        if payload > (n - cursor - 16) as u64 {
            return None;
        }
        let end: usize = cursor + 16 + payload as usize;
        let record = copy_range(bytes, cursor, end);
        let index_row = match decode_bucket(record.as_slice(), column) {
            Some(row) => row,
            None => {
                return None;
            },
        };
        let ghost before = rows@.map_values(|row: IndexRow| row@);
        let ghost added = index_row@;
        rows.insert(index_row.hash, index_row);
        assert(rows@.map_values(|row: IndexRow| row@) =~= before.insert(added.hash, added));
        cursor = end;
    }
    Some(Index { rows })
}

impl Index {
    /// Writes the index as the records of its buckets, in no particular order. Each string
    /// fits the column.
    pub fn to_bytes(&self, column: &Column) -> (r: Vec<u8>)
        requires
            index_fits(self@, column.data_type),
        ensures
            is_index_encoding(r@, self@, column.data_type),
    {
        broadcast use vstd::std_specs::hash::group_hash_axioms;

        let keys = index_keys(&self.rows);
        let count = keys.len();
        let ghost index = self@;
        let ghost buckets = buckets_in_order(index, keys@);
        let mut out: Vec<u8> = Vec::new();
        let mut k: usize = 0;
        while k < count
            invariant
                count == keys@.len(),
                k <= count,
                index == self@,
                index_fits(index, column.data_type),
                buckets == buckets_in_order(index, keys@),
                forall|key: u64| keys@.contains(key) <==> self.rows@.contains_key(key),
                out@ == buckets_prefix(buckets, column.data_type, k as int),
            decreases count - k,
        {
            let key = keys[k];
            assert(keys@.contains(key));
            match self.rows.get(&key) {
                Some(row) => {
                    assert(row@ == index[key]);
                    assert(index.contains_key(key));
                    let record = row.to_bytes(column);
                    push_bytes(&mut out, record.as_slice());
                },
                None => unreached(),
            }
            k += 1;
        }
        assert(lists_keys(keys@, index));
        out
    }

    /// Writes the index as the file of the given name, in place of what the file held.
    pub fn write_index_to_file(&self, storage: &mut Storage, file_name: String, column: &Column) -> (r:
        Result<(), PersistenceErrors>)
        requires
            old(storage).wf(),
            index_fits(self@, column.data_type),
        ensures
            final(storage).wf(),
            r == Ok::<(), PersistenceErrors>(()),
            final(storage)@.contains_key(file_name@),
            is_index_encoding(final(storage)@[file_name@], self@, column.data_type),
            final(storage)@ == old(storage)@.insert(file_name@, final(storage)@[file_name@]),
    {
        let bytes = self.to_bytes(column);
        storage.write(file_name.as_str(), bytes);
        Ok(())
    }

    /// Reads the index that the file of the given name holds.
    pub fn load(storage: &Storage, file_name: String, column: &Column) -> (r: Result<
        Self,
        PersistenceErrors,
    >)
        requires
            storage.wf(),
        ensures
            match r {
                Ok(index) => storage@.contains_key(file_name@) && decode_index_spec(
                    storage@[file_name@],
                    column.data_type,
                ) == Some(index@),
                Err(e) => e == PersistenceErrors::IndexLoading && (!storage@.contains_key(
                    file_name@,
                ) || decode_index_spec(storage@[file_name@], column.data_type) is None),
            },
    {
        match storage.read(file_name.as_str()) {
            Some(bytes) => match decode_index(bytes.as_slice(), column) {
                Some(index) => Ok(index),
                None => Err(PersistenceErrors::IndexLoading),
            },
            None => Err(PersistenceErrors::IndexLoading),
        }
    }

    /// Reads an index from bytes that state one.
    pub fn from_bytes(bytes: Vec<u8>, column: &Column) -> (r: Self)
        requires
            decode_index_spec(bytes@, column.data_type) is Some,
        ensures
            Some(r@) == decode_index_spec(bytes@, column.data_type),
    {
        match decode_index(bytes.as_slice(), column) {
            Some(index) => index,
            None => unreached(),
        }
    }
}

/// Whether the index comes back unchanged from its bytes: every bucket stands under its own
/// hash, holds storable values, and is short enough for its length to fit in 64 bits.
pub open spec fn index_storable(index: Map<u64, IndexRowView>, data_type: DataType) -> bool {
    forall|key: u64| #[trigger]
        index.contains_key(key) ==> {
            &&& index[key].hash == key
            &&& entries_storable(index[key].values, data_type)
            &&& entries_bytes(index[key].values, data_type).len() <= u64::MAX
        }
}

/// The index that the first `count` buckets make up, later buckets replacing earlier ones
/// with the same hash.
pub open spec fn buckets_map(rows: Seq<IndexRowView>, count: int) -> Map<u64, IndexRowView>
    decreases count,
{
    if count <= 0 {
        Map::empty()
    } else {
        buckets_map(rows, count - 1).insert(rows[count - 1].hash, rows[count - 1])
    }
}

proof fn lemma_buckets_prefix_is_prefix(
    rows: Seq<IndexRowView>,
    data_type: DataType,
    count: int,
    total: int,
)
    requires
        0 <= count <= total,
    ensures
        buckets_prefix(rows, data_type, count).is_prefix_of(buckets_prefix(rows, data_type, total)),
    decreases total - count,
{
    if count < total {
        lemma_buckets_prefix_is_prefix(rows, data_type, count, total - 1);
    }
}

proof fn lemma_decode_index_step(
    bytes: Seq<u8>,
    data_type: DataType,
    at: int,
    acc: Map<u64, IndexRowView>,
    row: IndexRowView,
    record: Seq<u8>,
)
    requires
        0 <= at,
        at + record.len() <= bytes.len(),
        bytes.subrange(at, at + record.len()) == record,
        record.len() == 16 + be64_value(record.subrange(0, 8)),
        decode_bucket_spec(record, data_type) == Some(row),
    ensures
        decode_index_from(bytes, data_type, at, acc) == decode_index_from(
            bytes,
            data_type,
            at + record.len(),
            acc.insert(row.hash, row),
        ),
{
    assert(bytes.subrange(at, at + 8) =~= record.subrange(0, 8));
}

proof fn lemma_buckets_round_trip(rows: Seq<IndexRowView>, data_type: DataType, k: int)
    requires
        0 <= k <= rows.len(),
        forall|i: int|
            0 <= i < rows.len() ==> entries_storable((#[trigger] rows[i]).values, data_type)
                && entries_bytes(rows[i].values, data_type).len() <= u64::MAX,
    ensures
        decode_index_from(
            buckets_bytes(rows, data_type),
            data_type,
            buckets_prefix(rows, data_type, k).len() as int,
            buckets_map(rows, k),
        ) == Some(buckets_map(rows, rows.len() as int)),
    decreases rows.len() - k,
{
    let n = rows.len() as int;
    let full = buckets_bytes(rows, data_type);
    let shorter = buckets_prefix(rows, data_type, k);
    if k < n {
        let record = bucket_bytes(rows[k], data_type);
        let at = shorter.len() as int;
        assert((shorter + record).is_prefix_of(full)) by {
            lemma_buckets_prefix_is_prefix(rows, data_type, k + 1, n);
        }
        lemma_piece_at(Seq::empty(), shorter, record, full);
        assert(Seq::<u8>::empty() + full =~= full);
        assert(decode_bucket_spec(record, data_type) == Some(rows[k]) && record.len() == 16
            + be64_value(record.subrange(0, 8))) by {
            lemma_bucket_round_trip(rows[k], data_type, Seq::empty());
            assert(record + Seq::<u8>::empty() =~= record);
        }
        lemma_decode_index_step(full, data_type, at, buckets_map(rows, k), rows[k], record);
        lemma_buckets_round_trip(rows, data_type, k + 1);
    } else {
        assert(shorter == full);
    }
}

/// Whether each listed hash has a bucket in the index, and the bucket holds that hash.
pub open spec fn keys_own_buckets(index: Map<u64, IndexRowView>, order: Seq<u64>) -> bool {
    forall|i: int|
        0 <= i < order.len() ==> index.contains_key(#[trigger] order[i]) && index[order[i]].hash
            == order[i]
}

proof fn lemma_buckets_map_lists(index: Map<u64, IndexRowView>, order: Seq<u64>, count: int)
    requires
        0 <= count <= order.len(),
        order.no_duplicates(),
        keys_own_buckets(index, order),
    ensures
        forall|key: u64| #[trigger]
            buckets_map(buckets_in_order(index, order), count).contains_key(key) <==> exists|
                i: int,
            |
                0 <= i < count && order[i] == key,
        forall|key: u64|
            buckets_map(buckets_in_order(index, order), count).contains_key(key)
                ==> #[trigger] buckets_map(buckets_in_order(index, order), count)[key]
                == index[key],
    decreases count,
{
    if count > 0 {
        lemma_buckets_map_lists(index, order, count - 1);
        let rows = buckets_in_order(index, order);
        let last = order[count - 1];
        assert(order.contains(last));
        assert(rows[count - 1] == index[last]);
        let shorter = buckets_map(rows, count - 1);
        let longer = buckets_map(rows, count);
        assert(longer == shorter.insert(last, index[last]));
        assert forall|key: u64| #[trigger] longer.contains_key(key) <==> exists|i: int|
            0 <= i < count && order[i] == key by {
            if longer.contains_key(key) {
                if key == last {
                    assert(order[count - 1] == key);
                } else {
                    assert(shorter.contains_key(key));
                    let i = choose|i: int| 0 <= i < count - 1 && order[i] == key;
                    assert(0 <= i < count && order[i] == key);
                }
            }
            if exists|i: int| 0 <= i < count && order[i] == key {
                let i = choose|i: int| 0 <= i < count && order[i] == key;
                if i < count - 1 {
                    assert(shorter.contains_key(key));
                }
            }
        }
    }
}

/// An index written to bytes and read back is the same index, whatever the order in which
/// its buckets were written.
pub proof fn law_index_round_trip(
    index: Map<u64, IndexRowView>,
    order: Seq<u64>,
    data_type: DataType,
)
    requires
        index_storable(index, data_type),
        lists_keys(order, index),
    ensures
        decode_index_spec(buckets_bytes(buckets_in_order(index, order), data_type), data_type)
            == Some(index),
{
    let rows = buckets_in_order(index, order);
    assert forall|i: int| 0 <= i < rows.len() implies entries_storable(
        (#[trigger] rows[i]).values,
        data_type,
    ) && entries_bytes(rows[i].values, data_type).len() <= u64::MAX by {
        assert(order.contains(order[i]));
        assert(index.contains_key(order[i]));
    }
    lemma_buckets_round_trip(rows, data_type, 0);
    assert(keys_own_buckets(index, order)) by {
        assert forall|i: int| 0 <= i < order.len() implies index.contains_key(
            #[trigger] order[i],
        ) && index[order[i]].hash == order[i] by {
            assert(order.contains(order[i]));
        }
    }
    lemma_buckets_map_lists(index, order, order.len() as int);
    let decoded = buckets_map(rows, rows.len() as int);
    assert forall|key: u64| decoded.contains_key(key) <==> index.contains_key(key) by {
        if decoded.contains_key(key) {
            let i = choose|i: int| 0 <= i < order.len() && order[i] == key;
            assert(order.contains(key));
        }
        if index.contains_key(key) {
            assert(order.contains(key));
            let i = choose|i: int| 0 <= i < order.len() && order[i] == key;
            assert(0 <= i < order.len() && order[i] == key);
        }
    }
    assert(decoded =~= index);
}

/// Whatever `Index::to_bytes` may write for an index comes back as the same index.
pub proof fn law_index_encoding_decodes(
    bytes: Seq<u8>,
    index: Map<u64, IndexRowView>,
    data_type: DataType,
)
    requires
        index_storable(index, data_type),
        is_index_encoding(bytes, index, data_type),
    ensures
        decode_index_spec(bytes, data_type) == Some(index),
{
    let order = choose|order: Seq<u64>| #[trigger]
        lists_keys(order, index) && bytes == buckets_bytes(
            buckets_in_order(index, order),
            data_type,
        );
    law_index_round_trip(index, order, data_type);
}


/// The entries of storable values are as long as their number times the width of an entry.
pub proof fn lemma_entries_length(values: Seq<(DataView, u64)>, data_type: DataType, count: int)
    requires
        entries_storable(values, data_type),
        0 <= count <= values.len(),
    ensures
        entries_prefix(values, data_type, count).len() == count * (data_type_size(data_type) + 8),
    decreases count,
{
    let width = data_type_size(data_type) + 8;
    if count > 0 {
        lemma_entries_length(values, data_type, count - 1);
        assert(entry_bytes(values[count - 1], data_type).len() == width) by {
            lemma_data_round_trip(values[count - 1].0, data_type);
            lemma_be64_round_trip(values[count - 1].1);
        }
        assert(count * width == (count - 1) * width + width) by (nonlinear_arith);
    } else {
        assert(0 * width == 0) by (nonlinear_arith);
    }
}

} // verus!
