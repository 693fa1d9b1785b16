//! The byte format of cell values and rows, and the hash by which values are indexed.
use vstd::prelude::*;
use vstd::pervasive::unreached;
use vstd::string::*;
use vstd::utf8::*;
use std::collections::hash_map::DefaultHasher;
use std::hash::Hasher;
use vstd::std_specs::hash::DefaultHasherAdditionalSpecFns;
use crate::common::db::{
    columns_view,
    data_seq_view,
    Column,
    ColumnView,
    Data,
    DataType,
    DataView,
    Row,
};
use crate::persistence::bytes::{
    all_zero,
    be32,
    be32_value,
    be64,
    be64_value,
    copy_range,
    i32_bits,
    i32_from_bits,
    i32_of_bits,
    i32_to_bits,
    is_all_zero,
    lemma_be32_round_trip,
    lemma_be64_round_trip,
    lemma_i32_bits_round_trip,
    push_be32,
    push_be64,
    push_bytes,
    push_zeros,
    read_be32,
    read_be64,
    zeros,
};
use crate::persistence::column::{data_type_size, string_from_utf8, PersistenceColumn};

verus! {

/// The eight bytes that stand for NULL in an integer column.
pub open spec fn int_null_bytes() -> Seq<u8> {
    seq![1u8, 0u8, 0u8, 0u8, 0u8, 0u8, 0u8, 0u8]
}

/// The bytes of a boolean.
pub open spec fn bool_bytes(b: bool) -> Seq<u8> {
    seq![1u8, 1u8, if b {
        1u8
    } else {
        0u8
    }, 0u8, 0u8, 0u8, 0u8, 0u8]
}

/// The bytes of a cell value in a column of width `max_size` and type `data_type`.
/// An integer is four zero bytes and its big-endian form; a string is its UTF-8 form
/// with zero bytes added up to `max_size`; a boolean is `1, 1`, the truth value and five
/// zero bytes; a float is its big-endian bit pattern. NULL is `1` and seven zero bytes for
/// an integer column, and all zero bytes for the others.
pub open spec fn data_bytes(value: DataView, max_size: nat, data_type: DataType) -> Seq<u8> {
    match value {
        DataView::INT(i) => seq![0u8, 0u8, 0u8, 0u8] + be32(i32_bits(i)),
        DataView::STRING(s) => encode_utf8(s) + zeros((max_size - encode_utf8(s).len()) as nat),
        DataView::NULL => match data_type {
            DataType::INT => int_null_bytes(),
            DataType::STRING { .. } => zeros(max_size),
            DataType::BOOLEAN => zeros(8),
            DataType::FLOAT => zeros(8),
        },
        DataView::BOOLEAN(b) => bool_bytes(b),
        DataView::FLOAT(f) => be64(f),
    }
}

/// The position of the first zero byte at or behind `from`, or the length where there is
/// none.
pub open spec fn zero_position(bytes: Seq<u8>, from: int) -> int
    decreases bytes.len() - from,
{
    if from < 0 || from >= bytes.len() {
        bytes.len() as int
    } else if bytes[from] == 0 {
        from
    } else {
        zero_position(bytes, from + 1)
    }
}

/// The bytes before the first zero byte.
pub open spec fn until_zero(bytes: Seq<u8>) -> Seq<u8> {
    bytes.subrange(0, zero_position(bytes, 0))
}

/// The integer in the fifth to eighth byte.
pub open spec fn int_of_bytes(bytes: Seq<u8>) -> DataView {
    DataView::INT(i32_of_bits(be32_value(bytes.subrange(4, 8))))
}

/// The text before the first zero byte.
pub open spec fn string_of_bytes(bytes: Seq<u8>) -> DataView {
    DataView::STRING(decode_utf8(until_zero(bytes)))
}

/// The boolean in the third byte.
pub open spec fn boolean_of_bytes(bytes: Seq<u8>) -> DataView {
    DataView::BOOLEAN(bytes[2] != 0)
}

/// The float whose bit pattern the eight bytes write.
pub open spec fn float_of_bytes(bytes: Seq<u8>) -> DataView {
    DataView::FLOAT(be64_value(bytes))
}

/// The cell value that bytes state in a column of the given type, if they state one.
/// The bytes that stand for NULL are tested first.
pub open spec fn decode_data_spec(bytes: Seq<u8>, data_type: DataType) -> Option<DataView> {
    match data_type {
        DataType::INT => if bytes == int_null_bytes() {
            Some(DataView::NULL)
        } else if bytes.len() < 8 {
            None
        } else {
            Some(int_of_bytes(bytes))
        },
        DataType::STRING { .. } => if all_zero(bytes) {
            Some(DataView::NULL)
        } else if !valid_utf8(until_zero(bytes)) {
            None
        } else {
            Some(string_of_bytes(bytes))
        },
        DataType::BOOLEAN => if bytes == zeros(8) {
            Some(DataView::NULL)
        } else if bytes.len() < 3 {
            None
        } else {
            Some(boolean_of_bytes(bytes))
        },
        DataType::FLOAT => if bytes == zeros(8) {
            Some(DataView::NULL)
        } else if bytes.len() != 8 {
            None
        } else {
            Some(float_of_bytes(bytes))
        },
    }
}

/// The four bytes of a 32-bit number, least significant first.
pub open spec fn le32(x: u32) -> Seq<u8> {
    seq![
        (x & 0xff) as u8,
        ((x >> 8) & 0xff) as u8,
        ((x >> 16) & 0xff) as u8,
        ((x >> 24) & 0xff) as u8,
    ]
}

/// The eight bytes of a 64-bit number, least significant first.
pub open spec fn le64(x: u64) -> Seq<u8> {
    seq![
        (x & 0xff) as u8,
        ((x >> 8) & 0xff) as u8,
        ((x >> 16) & 0xff) as u8,
        ((x >> 24) & 0xff) as u8,
        ((x >> 32) & 0xff) as u8,
        ((x >> 40) & 0xff) as u8,
        ((x >> 48) & 0xff) as u8,
        ((x >> 56) & 0xff) as u8,
    ]
}

/// The bit pattern by which a float is hashed: negative zero counts as zero.
pub open spec fn float_hash_bits(bits: u64) -> u64 {
    if bits == 0x8000_0000_0000_0000 {
        0
    } else {
        bits
    }
}

/// What is fed to the hasher for a value, write by write: the four little-endian bytes of
/// an integer; the UTF-8 form of a string and then the byte `0xff`; one byte for a boolean;
/// a zero byte for NULL; the eight little-endian bytes of a float's pattern.
pub open spec fn data_hash_input(value: DataView) -> Seq<Seq<u8>> {
    match value {
        DataView::INT(i) => seq![le32(i32_bits(i))],
        DataView::STRING(s) => seq![encode_utf8(s), seq![0xffu8]],
        DataView::NULL => seq![seq![0u8]],
        DataView::BOOLEAN(b) => seq![seq![if b {
            1u8
        } else {
            0u8
        }]],
        DataView::FLOAT(f) => seq![le64(float_hash_bits(f))],
    }
}

/// The hash of a value: what the default hasher of the standard library makes of
/// `data_hash_input`.
pub open spec fn data_hash(value: DataView) -> u64 {
    DefaultHasher::spec_finish(data_hash_input(value))
}

/// The byte format of a cell value.
pub trait PersistenceData: View<V = DataView> + Sized {
    /// Writes the value as it stands in a column of width `max_size` and type `data_type`.
    /// A string must fit.
    fn to_bytes(&self, max_size: usize, data_type: &DataType) -> (r: Vec<u8>)
        requires
            self@ matches DataView::STRING(s) ==> encode_utf8(s).len() <= max_size,
        ensures
            r@ == data_bytes(self@, max_size as nat, *data_type),
    ;

    /// Reads the integer in the fifth to eighth byte.
    fn int_from_bytes(bytes: Vec<u8>) -> (r: Data)
        requires
            bytes@.len() >= 8,
        ensures
            r@ == int_of_bytes(bytes@),
    ;

    /// Reads the text before the first zero byte, which must be valid UTF-8.
    fn string_from_bytes(bytes: Vec<u8>) -> (r: Data)
        requires
            valid_utf8(until_zero(bytes@)),
        ensures
            r@ == string_of_bytes(bytes@),
    ;

    /// Reads the boolean in the third byte.
    fn boolean_from_bytes(bytes: Vec<u8>) -> (r: Data)
        requires
            bytes@.len() >= 3,
        ensures
            r@ == boolean_of_bytes(bytes@),
    ;

    /// Reads the float that eight bytes write.
    fn float_from_bytes(bytes: Vec<u8>) -> (r: Data)
        requires
            bytes@.len() == 8,
        ensures
            r@ == float_of_bytes(bytes@),
    ;

    /// Reads a value of the column from bytes that state one.
    fn from_bytes(bytes: Vec<u8>, column: &Column) -> (r: Self)
        requires
            decode_data_spec(bytes@, column.data_type) is Some,
        ensures
            Some(r@) == decode_data_spec(bytes@, column.data_type),
    ;

    /// The hash under which the value is indexed.
    fn calculate_hash(&self) -> (r: u64)
        ensures
            r == data_hash(self@),
    ;
}

fn find_zero(bytes: &[u8]) -> (r: usize)
    ensures
        r == zero_position(bytes@, 0),
        r <= bytes@.len(),
{
    let n = bytes.len();
    let mut k: usize = 0;
    while k < n
        invariant
            n == bytes@.len(),
            k <= n,
            zero_position(bytes@, 0) == zero_position(bytes@, k as int),
        decreases n - k,
    {
        if bytes[k] == 0 {
            return k;
        }
        k += 1;
    }
    n
}

fn is_int_null(bytes: &[u8]) -> (r: bool)
    ensures
        r == (bytes@ == int_null_bytes()),
{
    if bytes.len() != 8 {
        return false;
    }
    let r = bytes[0] == 1 && bytes[1] == 0 && bytes[2] == 0 && bytes[3] == 0 && bytes[4] == 0
        && bytes[5] == 0 && bytes[6] == 0 && bytes[7] == 0;
    if r {
        assert(bytes@ =~= int_null_bytes());
    }
    r
}

fn is_eight_zeros(bytes: &[u8]) -> (r: bool)
    ensures
        r == (bytes@ == zeros(8)),
{
    if bytes.len() != 8 {
        return false;
    }
    let r = is_all_zero(bytes);
    if r {
        assert(bytes@ =~= zeros(8));
    } else {
        assert(forall|i: int| 0 <= i < 8 ==> zeros(8)[i] == 0);
    }
    r
}

/// Reads a cell value of the given type from its bytes, or nothing where the bytes state
/// none.
pub fn decode_data(bytes: &[u8], data_type: &DataType) -> (r: Option<Data>)
    ensures
        match r {
            Some(value) => decode_data_spec(bytes@, *data_type) == Some(value@),
            None => decode_data_spec(bytes@, *data_type) is None,
        },
{
    match data_type {
        DataType::INT => {
            if is_int_null(bytes) {
                Some(Data::NULL)
            } else if bytes.len() < 8 {
                None
            } else {
                Some(Data::INT(i32_from_bits(read_be32(bytes, 4))))
            }
        },
        DataType::STRING { .. } => {
            if is_all_zero(bytes) {
                Some(Data::NULL)
            } else {
                let end = find_zero(bytes);
                match string_from_utf8(copy_range(bytes, 0, end)) {
                    Some(text) => Some(Data::STRING(text)),
                    None => None,
                }
            }
        },
        DataType::BOOLEAN => {
            if is_eight_zeros(bytes) {
                Some(Data::NULL)
            } else if bytes.len() < 3 {
                None
            } else {
                Some(Data::BOOLEAN(bytes[2] != 0))
            }
        },
        DataType::FLOAT => {
            if is_eight_zeros(bytes) {
                Some(Data::NULL)
            } else if bytes.len() != 8 {
                None
            } else {
                let bits = read_be64(bytes, 0);
                assert(bytes@.subrange(0, 8) =~= bytes@);
                Some(Data::FLOAT(bits))
            }
        },
    }
}

impl PersistenceData for Data {
    fn to_bytes(&self, max_size: usize, data_type: &DataType) -> (r: Vec<u8>) {
        let mut out: Vec<u8> = Vec::new();
        match self {
            Data::INT(integer) => {
                push_be32(&mut out, 0);
                assert(be32(0u32) =~= seq![0u8, 0u8, 0u8, 0u8]) by {
                    assert(((0u32 >> 24) & 0xff) as u8 == 0 && ((0u32 >> 16) & 0xff) as u8 == 0 && ((
                    0u32 >> 8) & 0xff) as u8 == 0 && (0u32 & 0xff) as u8 == 0) by (bit_vector);
                }
                push_be32(&mut out, i32_to_bits(*integer));
                assert(out@ =~= data_bytes(self@, max_size as nat, *data_type));
            },
            Data::STRING(string) => {
                let utf8 = string.as_str().as_bytes();
                push_bytes(&mut out, utf8);
                push_zeros(&mut out, max_size - utf8.len());
                assert(out@ =~= data_bytes(self@, max_size as nat, *data_type));
            },
            Data::NULL => match data_type {
                DataType::INT => {
                    out.push(1);
                    push_zeros(&mut out, 7);
                    assert(out@ =~= int_null_bytes());
                },
                DataType::STRING { .. } => {
                    push_zeros(&mut out, max_size);
                    assert(out@ =~= zeros(max_size as nat));
                },
                DataType::BOOLEAN => {
                    push_zeros(&mut out, 8);
                    assert(out@ =~= zeros(8));
                },
                DataType::FLOAT => {
                    push_zeros(&mut out, 8);
                    assert(out@ =~= zeros(8));
                },
            },
            Data::BOOLEAN(value) => {
                out.push(1);
                out.push(1);
                out.push(if *value {
                    1
                } else {
                    0
                });
                push_zeros(&mut out, 5);
                assert(out@ =~= bool_bytes(*value));
            },
            Data::FLOAT(float) => {
                push_be64(&mut out, *float);
                assert(out@ =~= be64(*float));
            },
        }
        out
    }

    fn int_from_bytes(bytes: Vec<u8>) -> (r: Data) {
        Data::INT(i32_from_bits(read_be32(bytes.as_slice(), 4)))
    }

    fn string_from_bytes(bytes: Vec<u8>) -> (r: Data) {
        let end = find_zero(bytes.as_slice());
        match string_from_utf8(copy_range(bytes.as_slice(), 0, end)) {
            Some(text) => Data::STRING(text),
            None => unreached(),
        }
    }

    fn boolean_from_bytes(bytes: Vec<u8>) -> (r: Data) {
        Data::BOOLEAN(bytes[2] != 0)
    }

    fn float_from_bytes(bytes: Vec<u8>) -> (r: Data) {
        let bits = read_be64(bytes.as_slice(), 0);
        assert(bytes@.subrange(0, 8) =~= bytes@);
        Data::FLOAT(bits)
    }

    fn from_bytes(bytes: Vec<u8>, column: &Column) -> (r: Self) {
        match decode_data(bytes.as_slice(), &column.data_type) {
            Some(value) => value,
            None => unreached(),
        }
    }

    fn calculate_hash(&self) -> (r: u64) {
        let mut hasher = DefaultHasher::new();
        match self {
            Data::INT(value) => {
                let x = i32_to_bits(*value);
                let bytes: [u8; 4] = [
                    (x & 0xff) as u8,
                    ((x >> 8) & 0xff) as u8,
                    ((x >> 16) & 0xff) as u8,
                    ((x >> 24) & 0xff) as u8,
                ];
                assert(bytes@ =~= le32(x));
                hasher.write(bytes.as_slice());
            },
            Data::STRING(string) => {
                hasher.write(string.as_str().as_bytes());
                let end: [u8; 1] = [0xff];
                assert(end@ =~= seq![0xffu8]);
                hasher.write(end.as_slice());
            },
            Data::NULL => {
                let zero: [u8; 1] = [0];
                assert(zero@ =~= seq![0u8]);
                hasher.write(zero.as_slice());
            },
            Data::BOOLEAN(value) => {
                let byte: [u8; 1] = [if *value {
                    1
                } else {
                    0
                }];
                assert(byte@ =~= seq![if *value {
                    1u8
                } else {
                    0u8
                }]);
                hasher.write(byte.as_slice());
            },
            Data::FLOAT(bits) => {
                let x: u64 = if *bits == 0x8000_0000_0000_0000 {
                    0
                } else {
                    *bits
                };
                let bytes: [u8; 8] = [
                    (x & 0xff) as u8,
                    ((x >> 8) & 0xff) as u8,
                    ((x >> 16) & 0xff) as u8,
                    ((x >> 24) & 0xff) as u8,
                    ((x >> 32) & 0xff) as u8,
                    ((x >> 40) & 0xff) as u8,
                    ((x >> 48) & 0xff) as u8,
                    ((x >> 56) & 0xff) as u8,
                ];
                assert(bytes@ =~= le64(x));
                hasher.write(bytes.as_slice());
            },
        }
        assert(hasher@ =~= data_hash_input(self@));
        hasher.finish()
    }
}


/// Where the value of column `count` begins in a row: the widths of the columns before it.
pub open spec fn row_offset(columns: Seq<ColumnView>, count: int) -> nat
    decreases count,
{
    if count <= 0 {
        0
    } else {
        row_offset(columns, count - 1) + data_type_size(columns[count - 1].data_type)
    }
}

/// The width of a row: the sum of the widths of its columns.
pub open spec fn row_size(columns: Seq<ColumnView>) -> nat {
    row_offset(columns, columns.len() as int)
}

/// The bytes of the first `count` values of a row, each in the format of its column.
pub open spec fn row_bytes_prefix(values: Seq<DataView>, columns: Seq<ColumnView>, count: int)
    -> Seq<u8>
    decreases count,
{
    if count <= 0 {
        Seq::empty()
    } else {
        row_bytes_prefix(values, columns, count - 1) + data_bytes(
            values[count - 1],
            data_type_size(columns[count - 1].data_type),
            columns[count - 1].data_type,
        )
    }
}

/// The bytes of a row: the bytes of its values, one column after the other.
pub open spec fn row_bytes(values: Seq<DataView>, columns: Seq<ColumnView>) -> Seq<u8> {
    row_bytes_prefix(values, columns, columns.len() as int)
}

/// The first `count` values that bytes state under the given columns, if they state them.
pub open spec fn decode_row_prefix(bytes: Seq<u8>, columns: Seq<ColumnView>, count: int) -> Option<
    Seq<DataView>,
>
    decreases count,
{
    if count <= 0 {
        Some(Seq::empty())
    } else {
        match decode_row_prefix(bytes, columns, count - 1) {
            None => None,
            Some(values) => {
                let from = row_offset(columns, count - 1) as int;
                let to = row_offset(columns, count) as int;
                if to > bytes.len() {
                    None
                } else {
                    match decode_data_spec(bytes.subrange(from, to), columns[count - 1].data_type) {
                        None => None,
                        Some(value) => Some(values.push(value)),
                    }
                }
            },
        }
    }
}

/// The row that bytes state under the given columns, if they state one. Bytes behind the
/// row are ignored.
pub open spec fn decode_row_spec(bytes: Seq<u8>, columns: Seq<ColumnView>) -> Option<
    Seq<DataView>,
> {
    decode_row_prefix(bytes, columns, columns.len() as int)
}

/// Whether every string among the first values of a row fits its column.
pub open spec fn strings_fit(values: Seq<DataView>, columns: Seq<ColumnView>) -> bool {
    forall|i: int|
        0 <= i < columns.len() ==> ((#[trigger] values[i]) matches DataView::STRING(s)
            ==> encode_utf8(s).len() <= data_type_size(columns[i].data_type))
}

proof fn lemma_decode_row_prefix_stays_none(bytes: Seq<u8>, columns: Seq<ColumnView>, k: int, n: int)
    requires
        0 <= k <= n,
        decode_row_prefix(bytes, columns, k) is None,
    ensures
        decode_row_prefix(bytes, columns, n) is None,
    decreases n - k,
{
    if k < n {
        lemma_decode_row_prefix_stays_none(bytes, columns, k + 1, n);
    }
}

/// Reads a row from its bytes, or nothing where the bytes state none.
pub fn decode_row(bytes: &[u8], columns: &Vec<Column>) -> (r: Option<Row>)
    ensures
        match r {
            Some(row) => decode_row_spec(bytes@, columns_view(columns@)) == Some(row@),
            None => decode_row_spec(bytes@, columns_view(columns@)) is None,
        },
{
    let n = bytes.len();
    let count = columns.len();
    let ghost cols = columns_view(columns@);
    let mut values: Vec<Data> = Vec::new();
    let mut byte_counter: usize = 0;
    let mut k: usize = 0;
    assert(data_seq_view(values@) =~= Seq::<DataView>::empty());
    while k < count
        invariant
            n == bytes@.len(),
            count == columns@.len(),
            cols == columns_view(columns@),
            k <= count,
            byte_counter == row_offset(cols, k as int),
            byte_counter <= n,
            decode_row_prefix(bytes@, cols, k as int) == Some(
                data_seq_view(values@),
            ),
        decreases count - k,
    {
        let column = &columns[k];
        assert(cols[k as int] == column@);
        let data_size = column.size();
        if data_size > n - byte_counter {
            proof {
                lemma_decode_row_prefix_stays_none(bytes@, cols, k + 1, count as int);
            }
            return None;
        }
        let cell = copy_range(bytes, byte_counter, byte_counter + data_size);
        let value = match decode_data(cell.as_slice(), &column.data_type) {
            Some(value) => value,
            None => {
                proof {
                    lemma_decode_row_prefix_stays_none(bytes@, cols, k + 1, count as int);
                }
                return None;
            },
        };
        let ghost before = data_seq_view(values@);
        values.push(value);
        assert(data_seq_view(values@) =~= before.push(value@));
        byte_counter += data_size;
        k += 1;
    }
    Some(Row { values })
}

/// The byte format of a row.
pub trait PersistenceRow: View<V = Seq<DataView>> + Sized {
    /// Reads a row from bytes that state one under the given columns.
    fn from_bytes(bytes: Vec<u8>, columns: &Vec<Column>) -> (r: Row)
        requires
            decode_row_spec(bytes@, columns_view(columns@)) is Some,
        ensures
            Some(r@) == decode_row_spec(bytes@, columns_view(columns@)),
    ;

    /// Writes the row in the format of the given columns. The row has a value for each
    /// column, and each string fits its column.
    fn to_bytes(&self, columns: &[Column]) -> (r: Vec<u8>)
        requires
            self@.len() >= columns@.len(),
            strings_fit(self@, columns_view(columns@)),
        ensures
            r@ == row_bytes(self@, columns_view(columns@)),
    ;
}

impl PersistenceRow for Row {
    fn from_bytes(bytes: Vec<u8>, columns: &Vec<Column>) -> (r: Row) {
        match decode_row(bytes.as_slice(), columns) {
            Some(row) => row,
            None => unreached(),
        }
    }

    fn to_bytes(&self, columns: &[Column]) -> (r: Vec<u8>) {
        let count = columns.len();
        let ghost cols = columns_view(columns@);
        let mut out: Vec<u8> = Vec::new();
        let mut k: usize = 0;
        while k < count
            invariant
                count == columns@.len(),
                cols == columns_view(columns@),
                self@.len() >= count,
                strings_fit(self@, cols),
                k <= count,
                out@ == row_bytes_prefix(self@, cols, k as int),
            decreases count - k,
        {
            let column = &columns[k];
            assert(cols[k as int] == column@);
            let value = &self.values[k];
            assert(self@[k as int] == value@);
            let cell = value.to_bytes(column.size(), &column.data_type);
            push_bytes(&mut out, cell.as_slice());
            k += 1;
        }
        out
    }
}

/// Whether a value comes back unchanged from the bytes of a column of the given type.
/// The value has the column's type or is NULL. A string is not empty, holds no zero byte
/// and fits the column; a float is not the one whose bit pattern is zero: those are read
/// back as NULL, or cut short.
pub open spec fn storable(value: DataView, data_type: DataType) -> bool {
    match value {
        DataView::INT(_) => data_type == DataType::INT,
        DataView::STRING(s) => data_type is STRING && encode_utf8(s).len() > 0 && encode_utf8(
            s,
        ).len() <= data_type_size(data_type) && !encode_utf8(s).contains(0u8),
        DataView::NULL => true,
        DataView::BOOLEAN(_) => data_type == DataType::BOOLEAN,
        DataView::FLOAT(f) => data_type == DataType::FLOAT && f != 0,
    }
}

/// Whether a row has one storable value for each column.
pub open spec fn row_storable(values: Seq<DataView>, columns: Seq<ColumnView>) -> bool {
    values.len() == columns.len() && forall|i: int|
        0 <= i < columns.len() ==> storable(#[trigger] values[i], columns[i].data_type)
}

proof fn lemma_zero_position_after_text(utf8: Seq<u8>, padding: nat, from: int)
    requires
        !utf8.contains(0u8),
        0 <= from <= utf8.len(),
    ensures
        zero_position(utf8 + zeros(padding), from) == utf8.len(),
    decreases utf8.len() - from,
{
    let bytes = utf8 + zeros(padding);
    if from < utf8.len() {
        assert(bytes[from] == utf8[from]);
        assert(utf8.contains(utf8[from]));
        lemma_zero_position_after_text(utf8, padding, from + 1);
    } else if from < bytes.len() {
        assert(bytes[from] == zeros(padding)[from - utf8.len()]);
    }
}

/// A storable value read back from its bytes is the same value, and its bytes are as wide
/// as the column.
pub proof fn lemma_data_round_trip(value: DataView, data_type: DataType)
    requires
        storable(value, data_type),
    ensures
        decode_data_spec(data_bytes(value, data_type_size(data_type), data_type), data_type)
            == Some(value),
        data_bytes(value, data_type_size(data_type), data_type).len() == data_type_size(data_type),
{
    let size = data_type_size(data_type);
    let bytes = data_bytes(value, size, data_type);
    match value {
        DataView::INT(i) => {
            assert(bytes[0] == 0);
            assert(int_null_bytes()[0] == 1);
            assert(bytes.subrange(4, 8) =~= be32(i32_bits(i)));
            lemma_be32_round_trip(i32_bits(i));
            lemma_i32_bits_round_trip(i);
        },
        DataView::STRING(s) => {
            let utf8 = encode_utf8(s);
            let padding = (size - utf8.len()) as nat;
            assert(bytes[0] == utf8[0]);
            assert(utf8.contains(utf8[0]));
            lemma_zero_position_after_text(utf8, padding, 0);
            assert(until_zero(bytes) =~= utf8);
            encode_utf8_valid_utf8(s);
            encode_utf8_decode_utf8(s);
        },
        DataView::NULL => {},
        DataView::BOOLEAN(b) => {
            assert(bytes[0] == 1);
            assert(zeros(8)[0] == 0);
        },
        DataView::FLOAT(f) => {
            lemma_be64_round_trip(f);
            if bytes == zeros(8) {
                let z = zeros(8);
                assert(z[0] == 0 && z[1] == 0 && z[2] == 0 && z[3] == 0 && z[4] == 0 && z[5] == 0
                    && z[6] == 0 && z[7] == 0);
                assert((0u8 as u64) << 56 | (0u8 as u64) << 48 | (0u8 as u64) << 40 | (0u8 as u64)
                    << 32 | (0u8 as u64) << 24 | (0u8 as u64) << 16 | (0u8 as u64) << 8 | (
                0u8 as u64) == 0) by (bit_vector);
                assert(be64_value(z) == 0);
            }
        },
    }
}

proof fn lemma_row_prefix_length(values: Seq<DataView>, columns: Seq<ColumnView>, count: int)
    requires
        row_storable(values, columns),
        0 <= count <= columns.len(),
    ensures
        row_bytes_prefix(values, columns, count).len() == row_offset(columns, count),
    decreases count,
{
    if count > 0 {
        lemma_row_prefix_length(values, columns, count - 1);
        lemma_data_round_trip(values[count - 1], columns[count - 1].data_type);
    }
}

proof fn lemma_row_prefix_is_prefix(
    values: Seq<DataView>,
    columns: Seq<ColumnView>,
    count: int,
    total: int,
)
    requires
        0 <= count <= total,
    ensures
        row_bytes_prefix(values, columns, count).is_prefix_of(
            row_bytes_prefix(values, columns, total),
        ),
    decreases total - count,
{
    if count < total {
        lemma_row_prefix_is_prefix(values, columns, count, total - 1);
    }
}

proof fn lemma_row_round_trip_prefix(
    values: Seq<DataView>,
    columns: Seq<ColumnView>,
    rest: Seq<u8>,
    count: int,
)
    requires
        row_storable(values, columns),
        0 <= count <= columns.len(),
    ensures
        decode_row_prefix(row_bytes(values, columns) + rest, columns, count) == Some(
            values.subrange(0, count),
        ),
    decreases count,
{
    let bytes = row_bytes(values, columns) + rest;
    if count > 0 {
        lemma_row_round_trip_prefix(values, columns, rest, count - 1);
        lemma_row_prefix_length(values, columns, count - 1);
        lemma_row_prefix_length(values, columns, count);
        lemma_row_prefix_is_prefix(values, columns, count, columns.len() as int);
        lemma_data_round_trip(values[count - 1], columns[count - 1].data_type);
        let from = row_offset(columns, count - 1) as int;
        let to = row_offset(columns, count) as int;
        let cell = data_bytes(
            values[count - 1],
            data_type_size(columns[count - 1].data_type),
            columns[count - 1].data_type,
        );
        let shorter = row_bytes_prefix(values, columns, count);
        let full = row_bytes(values, columns);
        assert(shorter =~= full.subrange(0, shorter.len() as int));
        assert forall|i: int| from <= i < to implies bytes[i] == cell[i - from] by {
            assert(bytes[i] == full[i]);
            assert(full[i] == shorter[i]);
        }
        assert(bytes.subrange(from, to) =~= cell);
        assert(values.subrange(0, count - 1).push(values[count - 1]) =~= values.subrange(
            0,
            count,
        ));
    } else {
        assert(values.subrange(0, 0) =~= Seq::<DataView>::empty());
    }
}

/// A row of storable values written to bytes and read back is the same row, whatever
/// bytes follow it; and its bytes are as wide as the columns say.
pub proof fn law_row_round_trip(values: Seq<DataView>, columns: Seq<ColumnView>, rest: Seq<u8>)
    requires
        row_storable(values, columns),
    ensures
        decode_row_spec(row_bytes(values, columns) + rest, columns) == Some(values),
        row_bytes(values, columns).len() == row_size(columns),
{
    lemma_row_round_trip_prefix(values, columns, rest, columns.len() as int);
    lemma_row_prefix_length(values, columns, columns.len() as int);
    assert(values.subrange(0, columns.len() as int) =~= values);
}


proof fn lemma_zero_position_bound(bytes: Seq<u8>, from: int)
    requires
        0 <= from <= bytes.len(),
    ensures
        from <= zero_position(bytes, from) <= bytes.len(),
    decreases bytes.len() - from,
{
    if from < bytes.len() && bytes[from] != 0 {
        lemma_zero_position_bound(bytes, from + 1);
    }
}

/// A string read from bytes is no longer than the bytes, and a value read for a column
/// that holds no strings is no string.
pub proof fn lemma_decoded_data_fits(bytes: Seq<u8>, data_type: DataType)
    requires
        decode_data_spec(bytes, data_type) is Some,
    ensures
        decode_data_spec(bytes, data_type)->0 matches DataView::STRING(s) ==> data_type is STRING
            && encode_utf8(s).len() <= bytes.len(),
{
    if data_type is STRING && !all_zero(bytes) {
        lemma_zero_position_bound(bytes, 0);
        decode_utf8_encode_utf8(until_zero(bytes));
    }
}

/// A row read from bytes has one value for each column, and its strings fit the columns.
pub proof fn lemma_decoded_row_fits(bytes: Seq<u8>, columns: Seq<ColumnView>, count: int)
    requires
        0 <= count <= columns.len(),
        decode_row_prefix(bytes, columns, count) is Some,
    ensures
        decode_row_prefix(bytes, columns, count)->0.len() == count,
        forall|i: int|
            0 <= i < count ==> ((#[trigger] decode_row_prefix(bytes, columns, count)->0[i]) matches DataView::STRING(
                s,
            ) ==> encode_utf8(s).len() <= data_type_size(columns[i].data_type)),
    decreases count,
{
    if count > 0 {
        lemma_decoded_row_fits(bytes, columns, count - 1);
        let from = row_offset(columns, count - 1) as int;
        let to = row_offset(columns, count) as int;
        lemma_decoded_data_fits(bytes.subrange(from, to), columns[count - 1].data_type);
    }
}


/// Values that are equal have the same hash; in particular, floats that are numerically
/// equal do.
pub proof fn law_equal_values_hash_equally(a: DataView, b: DataView)
    requires
        a.equal(b),
    ensures
        data_hash(a) == data_hash(b),
{
    match (a, b) {
        (DataView::FLOAT(x), DataView::FLOAT(y)) => {
            if x != y {
                assert(((x | y) & 0x7fff_ffff_ffff_ffff) == 0 ==> (x == 0 || x
                    == 0x8000_0000_0000_0000) && (y == 0 || y == 0x8000_0000_0000_0000))
                    by (bit_vector);
            }
        },
        _ => {},
    }
}

} // verus!
