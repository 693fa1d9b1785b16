//! Column types, cell values and rows, with their mathematical views.
use vstd::prelude::*;
use vstd::string::*;
use vstd::std_specs::cmp::PartialEqSpecImpl;
use crate::text::{i32_to_string, signed_decimal};

verus! {

/// The declared type of a column.
#[derive(Copy, Clone, Eq, PartialEq, Debug, Structural)]
pub enum DataType {
    INT,
    STRING { size: i32 },
    BOOLEAN,
    FLOAT,
}

impl DataType {
    /// Whether this is a string type, of whatever size.
    pub fn is_string(&self) -> (r: bool)
        ensures
            r == (*self is STRING),
    {
        match self {
            DataType::STRING { .. } => true,
            _ => false,
        }
    }

    /// The text that names this type in messages.
    pub open spec fn text(self) -> Seq<char> {
        match self {
            DataType::INT => "INT"@,
            DataType::STRING { size } => "STRING { size: "@ + signed_decimal(size as int) + " }"@,
            DataType::BOOLEAN => "BOOLEAN"@,
            DataType::FLOAT => "FLOAT"@,
        }
    }

    /// Writes the type as it appears in messages.
    pub fn to_string(&self) -> (s: String)
        ensures
            s@ == self.text(),
    {
        match self {
            DataType::INT => String::from_str("INT"),
            DataType::STRING { size } => {
                let mut s = String::from_str("STRING { size: ");
                let digits = i32_to_string(*size);
                s.append(digits.as_str());
                s.append(" }");
                s
            },
            DataType::BOOLEAN => String::from_str("BOOLEAN"),
            DataType::FLOAT => String::from_str("FLOAT"),
        }
    }
}

/// A column of a table: its name, its type, and whether an index is kept for it.
#[derive(Eq, PartialEq, Debug)]
pub struct Column {
    pub name: String,
    pub data_type: DataType,
    pub is_indexed: bool,
}

/// What a `Column` is, with its name as a sequence of characters.
pub struct ColumnView {
    pub name: Seq<char>,
    pub data_type: DataType,
    pub is_indexed: bool,
}

impl View for Column {
    type V = ColumnView;

    open spec fn view(&self) -> ColumnView {
        ColumnView { name: self.name@, data_type: self.data_type, is_indexed: self.is_indexed }
    }
}

impl Clone for Column {
    fn clone(&self) -> (r: Self)
        ensures
            r == *self,
    {
        Column { name: self.name.clone(), data_type: self.data_type, is_indexed: self.is_indexed }
    }
}

/// The views of a sequence of columns.
pub open spec fn columns_view(columns: Seq<Column>) -> Seq<ColumnView> {
    columns.map_values(|c: Column| c@)
}

/// Whether the bit pattern of a 64-bit float is a NaN.
pub open spec fn float_is_nan(bits: u64) -> bool {
    (bits & 0x7ff0_0000_0000_0000) == 0x7ff0_0000_0000_0000 && (bits & 0x000f_ffff_ffff_ffff) != 0
}

/// Numeric equality of two 64-bit floats given by their bit patterns:
/// a NaN equals nothing, and the two zeros equal each other.
pub open spec fn float_bits_equal(a: u64, b: u64) -> bool {
    !float_is_nan(a) && !float_is_nan(b) && (a == b || ((a | b) & 0x7fff_ffff_ffff_ffff) == 0)
}

/// Decides `float_bits_equal`.
pub fn float_equal(a: u64, b: u64) -> (r: bool)
    ensures
        r == float_bits_equal(a, b),
{
    let a_nan = (a & 0x7ff0_0000_0000_0000) == 0x7ff0_0000_0000_0000 && (a & 0x000f_ffff_ffff_ffff)
        != 0;
    let b_nan = (b & 0x7ff0_0000_0000_0000) == 0x7ff0_0000_0000_0000 && (b & 0x000f_ffff_ffff_ffff)
        != 0;
    !a_nan && !b_nan && (a == b || ((a | b) & 0x7fff_ffff_ffff_ffff) == 0)
}

/// The value of one cell. A `FLOAT` holds the bit pattern of a 64-bit IEEE-754 number.
#[derive(Debug)]
pub enum Data {
    INT(i32),
    STRING(String),
    NULL,
    BOOLEAN(bool),
    FLOAT(u64),
}

/// What a `Data` is, with text as a sequence of characters.
pub enum DataView {
    INT(i32),
    STRING(Seq<char>),
    NULL,
    BOOLEAN(bool),
    FLOAT(u64),
}

impl View for Data {
    type V = DataView;

    open spec fn view(&self) -> DataView {
        match self {
            Data::INT(i) => DataView::INT(*i),
            Data::STRING(s) => DataView::STRING(s@),
            Data::NULL => DataView::NULL,
            Data::BOOLEAN(b) => DataView::BOOLEAN(*b),
            Data::FLOAT(f) => DataView::FLOAT(*f),
        }
    }
}

impl DataView {
    /// Equality of cell values: by value within one variant, floats numerically.
    pub open spec fn equal(self, other: DataView) -> bool {
        match (self, other) {
            (DataView::INT(a), DataView::INT(b)) => a == b,
            (DataView::STRING(a), DataView::STRING(b)) => a == b,
            (DataView::BOOLEAN(a), DataView::BOOLEAN(b)) => a == b,
            (DataView::FLOAT(a), DataView::FLOAT(b)) => float_bits_equal(a, b),
            (DataView::NULL, DataView::NULL) => true,
            _ => false,
        }
    }

    /// Whether a value may stand in a column of the given type: `NULL` may stand anywhere.
    pub open spec fn valid_for(self, data_type: DataType) -> bool {
        match self {
            DataView::INT(_) => data_type == DataType::INT,
            DataView::STRING(_) => data_type is STRING,
            DataView::NULL => true,
            DataView::BOOLEAN(_) => data_type == DataType::BOOLEAN,
            DataView::FLOAT(_) => data_type == DataType::FLOAT,
        }
    }

    /// The name of the value's type, as messages give it.
    pub open spec fn kind_text(self) -> Seq<char> {
        match self {
            DataView::INT(_) => "INT"@,
            DataView::STRING(_) => "STRING"@,
            DataView::NULL => "UNKNOWN since value was null"@,
            DataView::BOOLEAN(_) => "BOOLEAN"@,
            DataView::FLOAT(_) => "FLOAT"@,
        }
    }
}

impl Clone for Data {
    fn clone(&self) -> (r: Self)
        ensures
            r == *self,
    {
        match self {
            Data::INT(i) => Data::INT(*i),
            Data::STRING(s) => Data::STRING(s.clone()),
            Data::NULL => Data::NULL,
            Data::BOOLEAN(b) => Data::BOOLEAN(*b),
            Data::FLOAT(f) => Data::FLOAT(*f),
        }
    }
}

impl PartialEq for Data {
    fn eq(&self, other: &Self) -> (r: bool) {
        match (self, other) {
            (Data::INT(a), Data::INT(b)) => *a == *b,
            (Data::STRING(a), Data::STRING(b)) => *a == *b,
            (Data::BOOLEAN(a), Data::BOOLEAN(b)) => *a == *b,
            (Data::FLOAT(a), Data::FLOAT(b)) => float_equal(*a, *b),
            (Data::NULL, Data::NULL) => true,
            _ => false,
        }
    }
}

impl PartialEqSpecImpl for Data {
    open spec fn obeys_eq_spec() -> bool {
        true
    }

    open spec fn eq_spec(&self, other: &Self) -> bool {
        self@.equal(other@)
    }
}

impl Data {
    /// Whether the value may stand in a column of the given type.
    pub fn is_valid_data_for_type(&self, data_type: &DataType) -> (r: bool)
        ensures
            r == self@.valid_for(*data_type),
    {
        match self {
            Data::INT(_) => *data_type == DataType::INT,
            Data::STRING(_) => data_type.is_string(),
            Data::NULL => true,
            Data::BOOLEAN(_) => *data_type == DataType::BOOLEAN,
            Data::FLOAT(_) => *data_type == DataType::FLOAT,
        }
    }

    /// The name of the value's type, for messages.
    pub fn to_type(&self) -> (s: String)
        ensures
            s@ == self@.kind_text(),
    {
        match self {
            Data::INT(_) => String::from_str("INT"),
            Data::STRING(_) => String::from_str("STRING"),
            Data::NULL => String::from_str("UNKNOWN since value was null"),
            Data::BOOLEAN(_) => String::from_str("BOOLEAN"),
            Data::FLOAT(_) => String::from_str("FLOAT"),
        }
    }

    /// Whether the value is `NULL`.
    pub fn is_null(&self) -> (r: bool)
        ensures
            r == (self@ is NULL),
    {
        match self {
            Data::NULL => true,
            _ => false,
        }
    }
}

/// One row of a table: a value for each column, in the columns' order.
#[derive(PartialEq, Debug)]
pub struct Row {
    pub values: Vec<Data>,
}

/// The views of a sequence of cell values.
pub open spec fn data_seq_view(values: Seq<Data>) -> Seq<DataView> {
    values.map_values(|d: Data| d@)
}

impl View for Row {
    type V = Seq<DataView>;

    open spec fn view(&self) -> Seq<DataView> {
        data_seq_view(self.values@)
    }
}

} // verus!
