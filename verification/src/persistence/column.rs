//! The byte format of column types and columns.
use vstd::prelude::*;
use vstd::pervasive::unreached;
use vstd::string::*;
use vstd::utf8::*;
use crate::common::db::{Column, ColumnView, DataType};
use crate::persistence::bytes::{
    be32,
    be32_value,
    copy_range,
    i32_bits,
    i32_from_bits,
    i32_of_bits,
    i32_to_bits,
    lemma_be32_round_trip,
    lemma_i32_bits_round_trip,
    push_be32,
    push_bytes,
    read_be32,
};

verus! {

/// The tag byte of a column type.
pub open spec fn data_type_tag(data_type: DataType) -> u8 {
    match data_type {
        DataType::INT => 0,
        DataType::STRING { .. } => 1,
        DataType::BOOLEAN => 2,
        DataType::FLOAT => 3,
    }
}

/// The eight bytes of a column type: the tag, three zero bytes, and the size of a string
/// type as a big-endian number, zero for the other types.
pub open spec fn data_type_bytes(data_type: DataType) -> Seq<u8> {
    seq![data_type_tag(data_type), 0u8, 0u8, 0u8] + be32(
        match data_type {
            DataType::STRING { size } => i32_bits(size),
            _ => 0u32,
        },
    )
}

/// The column type that bytes state, if they state one: the first byte is the tag, and a
/// string type has its size in the fifth to eighth byte.
pub open spec fn decode_data_type_spec(bytes: Seq<u8>) -> Option<DataType> {
    if bytes.len() < 1 {
        None
    } else if bytes[0] == 0 {
        Some(DataType::INT)
    } else if bytes[0] == 1 {
        if bytes.len() < 8 {
            None
        } else {
            Some(DataType::STRING { size: i32_of_bits(be32_value(bytes.subrange(4, 8))) })
        }
    } else if bytes[0] == 2 {
        Some(DataType::BOOLEAN)
    } else if bytes[0] == 3 {
        Some(DataType::FLOAT)
    } else {
        None
    }
}

/// Reads a column type from its bytes, or nothing where the bytes state none.
pub fn decode_data_type(bytes: &[u8]) -> (r: Option<DataType>)
    ensures
        r == decode_data_type_spec(bytes@),
{
    if bytes.len() < 1 {
        return None;
    }
    let tag = bytes[0];
    if tag == 0 {
        Some(DataType::INT)
    } else if tag == 1 {
        if bytes.len() < 8 {
            None
        } else {
            Some(DataType::STRING { size: i32_from_bits(read_be32(bytes, 4)) })
        }
    } else if tag == 2 {
        Some(DataType::BOOLEAN)
    } else if tag == 3 {
        Some(DataType::FLOAT)
    } else {
        None
    }
}

/// A column type read back from its bytes is the same type.
pub proof fn lemma_data_type_round_trip(data_type: DataType)
    ensures
        decode_data_type_spec(data_type_bytes(data_type)) == Some(data_type),
        data_type_bytes(data_type).len() == 8,
{
    let bytes = data_type_bytes(data_type);
    match data_type {
        DataType::STRING { size } => {
            assert(bytes.subrange(4, 8) =~= be32(i32_bits(size)));
            lemma_be32_round_trip(i32_bits(size));
            lemma_i32_bits_round_trip(size);
        },
        _ => {},
    }
}

/// The byte format of a column type.
pub trait PersistenceDataType: Sized {
    /// The bytes of the type.
    spec fn spec_to_bytes(self) -> Seq<u8>;

    /// The type that bytes state, if they state one.
    spec fn spec_from_bytes(bytes: Seq<u8>) -> Option<DataType>;

    /// Writes the type as its eight bytes.
    fn to_bytes(self) -> (r: Vec<u8>)
        ensures
            r@ == self.spec_to_bytes(),
    ;

    /// Reads a type from bytes that state one.
    fn from_bytes(bytes: Vec<u8>) -> (r: DataType)
        requires
            Self::spec_from_bytes(bytes@) is Some,
        ensures
            Some(r) == Self::spec_from_bytes(bytes@),
    ;
}

impl PersistenceDataType for DataType {
    open spec fn spec_to_bytes(self) -> Seq<u8> {
        data_type_bytes(self)
    }

    open spec fn spec_from_bytes(bytes: Seq<u8>) -> Option<DataType> {
        decode_data_type_spec(bytes)
    }

    fn to_bytes(self) -> (r: Vec<u8>) {
        let mut out: Vec<u8> = Vec::new();
        let (tag, size): (u8, u32) = match self {
            DataType::INT => (0, 0),
            DataType::STRING { size } => (1, i32_to_bits(size)),
            DataType::BOOLEAN => (2, 0),
            DataType::FLOAT => (3, 0),
        };
        out.push(tag);
        out.push(0);
        out.push(0);
        out.push(0);
        assert(out@ =~= seq![data_type_tag(self), 0u8, 0u8, 0u8]);
        push_be32(&mut out, size);
        out
    }

    fn from_bytes(bytes: Vec<u8>) -> (r: DataType) {
        match decode_data_type(bytes.as_slice()) {
            Some(data_type) => data_type,
            None => unreached(),
        }
    }
}

/// The length of a text in bytes, as the 32-bit number that the format holds.
pub open spec fn length32(text: Seq<char>) -> u32 {
    (encode_utf8(text).len() % 0x1_0000_0000) as u32
}

/// A length-prefixed text: the length of its UTF-8 form as a big-endian 32-bit number, then
/// the UTF-8 form itself.
pub open spec fn text_bytes(text: Seq<char>) -> Seq<u8> {
    be32(length32(text)) + encode_utf8(text)
}

/// The bytes of a column: its length-prefixed name, the eight bytes of its type, and one
/// byte that is 1 where the column is indexed and 0 where it is not.
pub open spec fn column_bytes(column: ColumnView) -> Seq<u8> {
    text_bytes(column.name) + data_type_bytes(column.data_type) + seq![
        if column.is_indexed {
            1u8
        } else {
            0u8
        },
    ]
}

/// The column that bytes state, if they state one. Bytes behind the column are ignored.
pub open spec fn decode_column_spec(bytes: Seq<u8>) -> Option<ColumnView> {
    if bytes.len() < 4 {
        None
    } else {
        let name_size = be32_value(bytes.subrange(0, 4)) as int;
        if bytes.len() < 4 + name_size + 9 {
            None
        } else if !valid_utf8(bytes.subrange(4, 4 + name_size)) {
            None
        } else {
            match decode_data_type_spec(bytes.subrange(4 + name_size, 4 + name_size + 8)) {
                None => None,
                Some(data_type) => Some(
                    ColumnView {
                        name: decode_utf8(bytes.subrange(4, 4 + name_size)),
                        data_type,
                        is_indexed: bytes[4 + name_size + 8] & 1 == 1,
                    },
                ),
            }
        }
    }
}

/// Whether the name of the column is short enough for the format: at most `u32::MAX`
/// bytes of UTF-8.
pub open spec fn column_fits(column: ColumnView) -> bool {
    encode_utf8(column.name).len() <= u32::MAX
}

/// The width of a value of the given type in a row: eight bytes, or the size of a string
/// type. A string type with a negative size holds nothing.
pub open spec fn data_type_size(data_type: DataType) -> nat {
    match data_type {
        DataType::STRING { size } => if size >= 0 {
            size as nat
        } else {
            0
        },
        _ => 8,
    }
}

/// `String::from_utf8` of the standard library: the text that the bytes encode, where they
/// are valid UTF-8, and nothing where they are not.
#[verifier::external_body]
pub(crate) fn string_from_utf8(bytes: Vec<u8>) -> (r: Option<String>)
    ensures
        match r {
            Some(text) => valid_utf8(bytes@) && text@ == decode_utf8(bytes@),
            None => !valid_utf8(bytes@),
        },
{
    String::from_utf8(bytes).ok()
}

/// Adds a length-prefixed text to `out`.
pub fn push_text(out: &mut Vec<u8>, text: &str)
    ensures
        final(out)@ == old(out)@ + text_bytes(text@),
{
    let utf8 = text.as_bytes();
    let length = ((utf8.len() as u64) % 0x1_0000_0000) as u32;
    push_be32(out, length);
    push_bytes(out, utf8);
    assert(out@ =~= old(out)@ + text_bytes(text@));
}

/// Reads a column from its bytes, or nothing where the bytes state none.
pub fn decode_column(bytes: &[u8]) -> (r: Option<Column>)
    ensures
        match r {
            Some(column) => decode_column_spec(bytes@) == Some(column@),
            None => decode_column_spec(bytes@) is None,
        },
{
    let n = bytes.len();
    if n < 4 {
        return None;
    }
    let name_size = read_be32(bytes, 0);
    if (n as u64) < 4 + name_size as u64 + 9 {
        return None;
    }
    let name_end: usize = 4 + name_size as usize;
    let name = match string_from_utf8(copy_range(bytes, 4, name_end)) {
        Some(name) => name,
        None => {
            return None;
        },
    };
    let type_bytes = copy_range(bytes, name_end, name_end + 8);
    let data_type = match decode_data_type(type_bytes.as_slice()) {
        Some(data_type) => data_type,
        None => {
            return None;
        },
    };
    let is_indexed = (bytes[name_end + 8] & 1) == 1;
    Some(Column { name, data_type, is_indexed })
}

/// A column read back from its bytes is the same column, whatever bytes follow it.
pub proof fn lemma_column_round_trip(column: ColumnView, rest: Seq<u8>)
    requires
        column_fits(column),
    ensures
        decode_column_spec(column_bytes(column) + rest) == Some(column),
        column_bytes(column).len() == encode_utf8(column.name).len() + 13,
        be32_value((column_bytes(column) + rest).subrange(0, 4)) == encode_utf8(column.name).len(),
{
    let utf8 = encode_utf8(column.name);
    let size = utf8.len() as int;
    let bytes = column_bytes(column) + rest;
    lemma_be32_round_trip(length32(column.name));
    lemma_data_type_round_trip(column.data_type);
    encode_utf8_valid_utf8(column.name);
    encode_utf8_decode_utf8(column.name);
    assert(bytes.subrange(0, 4) =~= be32(length32(column.name)));
    assert(bytes.subrange(4, 4 + size) =~= utf8);
    assert(bytes.subrange(4 + size, 4 + size + 8) =~= data_type_bytes(column.data_type));
    let flag = bytes[4 + size + 8];
    let indexed = column.is_indexed;
    assert(flag == if indexed {
        1u8
    } else {
        0u8
    });
    assert((flag & 1 == 1) == indexed) by (bit_vector)
        requires
            flag == if indexed {
                1u8
            } else {
                0u8
            },
    ;
}

/// The byte format of a column.
pub trait PersistenceColumn: Sized {
    /// The bytes of the column.
    spec fn spec_to_bytes(&self) -> Seq<u8>;

    /// The column that bytes state, if they state one.
    spec fn spec_from_bytes(bytes: Seq<u8>) -> Option<ColumnView>;

    /// The width of a value of the column in a row.
    spec fn spec_size(&self) -> nat;

    /// Writes the column in its byte format.
    fn to_bytes(&self) -> (r: Vec<u8>)
        ensures
            r@ == self.spec_to_bytes(),
    ;

    /// Reads a column from bytes that state one.
    fn from_bytes(bytes: Vec<u8>) -> (r: Column)
        requires
            Self::spec_from_bytes(bytes@) is Some,
        ensures
            Some(r@) == Self::spec_from_bytes(bytes@),
    ;

    /// The width of a value of the column in a row.
    fn size(&self) -> (r: usize)
        ensures
            r == self.spec_size(),
    ;
}

impl PersistenceColumn for Column {
    open spec fn spec_to_bytes(&self) -> Seq<u8> {
        column_bytes(self@)
    }

    open spec fn spec_from_bytes(bytes: Seq<u8>) -> Option<ColumnView> {
        decode_column_spec(bytes)
    }

    open spec fn spec_size(&self) -> nat {
        data_type_size(self.data_type)
    }

    fn to_bytes(&self) -> (r: Vec<u8>) {
        let mut out: Vec<u8> = Vec::new();
        push_text(&mut out, self.name.as_str());
        let type_bytes = self.data_type.to_bytes();
        push_bytes(&mut out, type_bytes.as_slice());
        out.push(if self.is_indexed {
            1
        } else {
            0
        });
        assert(out@ =~= column_bytes(self@));
        out
    }

    fn from_bytes(bytes: Vec<u8>) -> (r: Column) {
        match decode_column(bytes.as_slice()) {
            Some(column) => column,
            None => unreached(),
        }
    }

    fn size(&self) -> (r: usize) {
        match self.data_type {
            DataType::STRING { size } => if size >= 0 {
                size as usize
            } else {
                0
            },
            _ => 8,
        }
    }
}

/// A column written to bytes and read back is the same column, as long as its name is short
/// enough for the format.
pub proof fn law_column_round_trip(column: Column)
    requires
        column_fits(column@),
    ensures
        Column::spec_from_bytes(column.spec_to_bytes()) == Some(column@),
{
    lemma_column_round_trip(column@, Seq::empty());
    assert(column_bytes(column@) + Seq::<u8>::empty() =~= column_bytes(column@));
}

} // verus!
