//! The typed record model: the closed set of column data types, the cell
//! values that carry them, the column schema, and the rows of a decoded
//! file, with the canonical text of every cell and type token.

use vstd::prelude::*;

use crate::text::{dec_text, int_text, push_i32_text, push_u64_text};

verus! {

/// The nine column data types of a record file.
#[derive(Clone, Copy, PartialEq, Eq, Structural, Debug)]
pub enum DataType {
    StringFixedLen,
    StringZeroTerminated,
    Byte,
    SignedByte,
    UnsignedShort,
    SignedShort,
    UnsignedInteger,
    SignedInteger,
    SingleFloatingPoint,
}

/// The fixed token that names each data type in the emitted schema.
pub open spec fn type_token(t: DataType) -> Seq<char> {
    match t {
        DataType::StringFixedLen => "StringFL"@,
        DataType::StringZeroTerminated => "StringSZ"@,
        DataType::Byte => "u8"@,
        DataType::SignedByte => "i8"@,
        DataType::UnsignedShort => "u16"@,
        DataType::SignedShort => "i16"@,
        DataType::UnsignedInteger => "u32"@,
        DataType::SignedInteger => "i32"@,
        DataType::SingleFloatingPoint => "f32"@,
    }
}

/// The type token of each data type.
pub fn type_to_str(t: &DataType) -> (s: &'static str)
    ensures
        s@ == type_token(*t),
{
    match t {
        DataType::StringFixedLen => "StringFL",
        DataType::StringZeroTerminated => "StringSZ",
        DataType::Byte => "u8",
        DataType::SignedByte => "i8",
        DataType::UnsignedShort => "u16",
        DataType::SignedShort => "i16",
        DataType::UnsignedInteger => "u32",
        DataType::SignedInteger => "i32",
        DataType::SingleFloatingPoint => "f32",
    }
}

/// The data type whose token is `s`, if any.
pub open spec fn token_type(s: Seq<char>) -> Option<DataType> {
    if s == type_token(DataType::StringFixedLen) {
        Some(DataType::StringFixedLen)
    } else if s == type_token(DataType::StringZeroTerminated) {
        Some(DataType::StringZeroTerminated)
    } else if s == type_token(DataType::Byte) {
        Some(DataType::Byte)
    } else if s == type_token(DataType::SignedByte) {
        Some(DataType::SignedByte)
    } else if s == type_token(DataType::UnsignedShort) {
        Some(DataType::UnsignedShort)
    } else if s == type_token(DataType::SignedShort) {
        Some(DataType::SignedShort)
    } else if s == type_token(DataType::UnsignedInteger) {
        Some(DataType::UnsignedInteger)
    } else if s == type_token(DataType::SignedInteger) {
        Some(DataType::SignedInteger)
    } else if s == type_token(DataType::SingleFloatingPoint) {
        Some(DataType::SingleFloatingPoint)
    } else {
        None
    }
}

/// Mapping a data type to its token and back is the identity: the token
/// mapping loses nothing.
pub proof fn lemma_token_roundtrip(t: DataType)
    ensures
        token_type(type_token(t)) == Some(t),
{
    reveal_strlit("StringFL");
    reveal_strlit("StringSZ");
    reveal_strlit("u8");
    reveal_strlit("i8");
    reveal_strlit("u16");
    reveal_strlit("i16");
    reveal_strlit("u32");
    reveal_strlit("i32");
    reveal_strlit("f32");
    assert("StringFL"@[6] == 'F' && "StringSZ"@[6] == 'S');
    assert("u8"@[0] == 'u' && "i8"@[0] == 'i');
    assert("u16"@[0] == 'u' && "i16"@[0] == 'i' && "u32"@[0] == 'u' && "i32"@[0] == 'i'
        && "f32"@[0] == 'f');
    assert("u16"@[1] == '1' && "i16"@[1] == '1' && "u32"@[1] == '3' && "i32"@[1] == '3'
        && "f32"@[1] == '3');
    assert("StringFL"@.len() == 8 && "StringSZ"@.len() == 8 && "u8"@.len() == 2 && "i8"@.len()
        == 2 && "u16"@.len() == 3 && "i16"@.len() == 3 && "u32"@.len() == 3 && "i32"@.len() == 3
        && "f32"@.len() == 3);
}

/// The token mapping is a bijection between the nine data types and their
/// nine tokens: distinct types always carry distinct tokens.
pub proof fn lemma_token_bijective(a: DataType, b: DataType)
    ensures
        type_token(a) == type_token(b) ==> a == b,
{
    lemma_token_roundtrip(a);
    lemma_token_roundtrip(b);
}

/// One decoded cell value; exactly one variant per data type. The floating
/// point variant carries the decimal text that the model builder rendered
/// for the value, since this crate holds no floating point values itself.
pub enum Cell {
    StringFixedLen(String),
    StringZeroTerminated(String),
    Byte(u8),
    SignedByte(i8),
    UnsignedShort(u16),
    SignedShort(i16),
    UnsignedInteger(u32),
    SignedInteger(i32),
    SingleFloatingPoint(String),
}

/// The data type that a cell value carries.
pub open spec fn cell_type(c: Cell) -> DataType {
    match c {
        Cell::StringFixedLen(_) => DataType::StringFixedLen,
        Cell::StringZeroTerminated(_) => DataType::StringZeroTerminated,
        Cell::Byte(_) => DataType::Byte,
        Cell::SignedByte(_) => DataType::SignedByte,
        Cell::UnsignedShort(_) => DataType::UnsignedShort,
        Cell::SignedShort(_) => DataType::SignedShort,
        Cell::UnsignedInteger(_) => DataType::UnsignedInteger,
        Cell::SignedInteger(_) => DataType::SignedInteger,
        Cell::SingleFloatingPoint(_) => DataType::SingleFloatingPoint,
    }
}

/// The canonical text of a cell value: string cells verbatim, integer
/// cells in base 10, floating point cells verbatim as rendered by the
/// model builder (their shortest round-trippable decimal form).
pub open spec fn cell_text(c: Cell) -> Seq<char> {
    match c {
        Cell::StringFixedLen(s) => s@,
        Cell::StringZeroTerminated(s) => s@,
        Cell::Byte(n) => dec_text(n as nat),
        Cell::SignedByte(n) => int_text(n as int),
        Cell::UnsignedShort(n) => dec_text(n as nat),
        Cell::SignedShort(n) => int_text(n as int),
        Cell::UnsignedInteger(n) => dec_text(n as nat),
        Cell::SignedInteger(n) => int_text(n as int),
        Cell::SingleFloatingPoint(s) => s@,
    }
}

/// The canonical text of a cell: total over all nine variants, and a
/// function of the cell value alone.
pub fn format_cell(cell: &Cell) -> (s: String)
    ensures
        s@ == cell_text(*cell),
{
    match cell {
        Cell::StringFixedLen(s) => s.clone(),
        Cell::StringZeroTerminated(s) => s.clone(),
        Cell::Byte(n) => {
            let mut out = String::new();
            push_u64_text(*n as u64, &mut out);
            out
        },
        Cell::SignedByte(n) => {
            let mut out = String::new();
            push_i32_text(*n as i32, &mut out);
            out
        },
        Cell::UnsignedShort(n) => {
            let mut out = String::new();
            push_u64_text(*n as u64, &mut out);
            out
        },
        Cell::SignedShort(n) => {
            let mut out = String::new();
            push_i32_text(*n as i32, &mut out);
            out
        },
        Cell::UnsignedInteger(n) => {
            let mut out = String::new();
            push_u64_text(*n as u64, &mut out);
            out
        },
        Cell::SignedInteger(n) => {
            let mut out = String::new();
            push_i32_text(*n, &mut out);
            out
        },
        Cell::SingleFloatingPoint(s) => s.clone(),
    }
}

/// Formatting is deterministic: equal cells always render to equal text.
pub proof fn lemma_format_deterministic(a: Cell, b: Cell)
    ensures
        a == b ==> cell_text(a) == cell_text(b),
{
}

/// One column of the schema: its name and its data type.
pub struct Column {
    pub name: String,
    pub data_type: DataType,
}

/// One decoded row: its cells, in schema column order.
pub struct Row {
    pub cells: Vec<Cell>,
}

/// A decoded file: the opaque header bytes, the ordered column schema and
/// the ordered rows.
pub struct Model {
    pub crypt_header: Vec<u8>,
    pub columns: Vec<Column>,
    pub rows: Vec<Row>,
}

/// The decoder-guaranteed shape of one row against the schema: one cell
/// per column, each carrying the variant of its column's type.
pub open spec fn row_wf(r: Row, cols: Seq<Column>) -> bool {
    &&& r.cells@.len() == cols.len()
    &&& forall|j: int|
        0 <= j < cols.len() ==> cell_type(#[trigger] r.cells@[j]) == cols[j].data_type
}

/// Whether a cell carries the given data type's variant.
pub fn cell_has_type(c: &Cell, t: &DataType) -> (b: bool)
    ensures
        b == (cell_type(*c) == *t),
{
    let ct = match c {
        Cell::StringFixedLen(_) => DataType::StringFixedLen,
        Cell::StringZeroTerminated(_) => DataType::StringZeroTerminated,
        Cell::Byte(_) => DataType::Byte,
        Cell::SignedByte(_) => DataType::SignedByte,
        Cell::UnsignedShort(_) => DataType::UnsignedShort,
        Cell::SignedShort(_) => DataType::SignedShort,
        Cell::UnsignedInteger(_) => DataType::UnsignedInteger,
        Cell::SignedInteger(_) => DataType::SignedInteger,
        Cell::SingleFloatingPoint(_) => DataType::SingleFloatingPoint,
    };
    ct == *t
}

impl Model {
    /// The decoder-guaranteed shape: every row has one cell per schema
    /// column, and each cell carries the variant of its column's type.
    pub open spec fn wf(self) -> bool {
        forall|i: int|
            0 <= i < self.rows@.len() ==> row_wf(#[trigger] self.rows@[i], self.columns@)
    }

    /// Decides the decoder-guaranteed shape, for a caller that received
    /// the model from outside and must not assume it.
    pub fn is_wf(&self) -> (b: bool)
        ensures
            b == self.wf(),
    {
        let mut i: usize = 0;
        while i < self.rows.len()
            invariant
                i <= self.rows@.len(),
                forall|k: int| 0 <= k < i ==> row_wf(#[trigger] self.rows@[k], self.columns@),
            decreases self.rows@.len() - i,
        {
            let row = &self.rows[i];
            if row.cells.len() != self.columns.len() {
                assert(!row_wf(self.rows@[i as int], self.columns@));
                return false;
            }
            let mut j: usize = 0;
            while j < self.columns.len()
                invariant
                    j <= self.columns@.len(),
                    i < self.rows@.len(),
                    row == &self.rows@[i as int],
                    row.cells@.len() == self.columns@.len(),
                    forall|l: int|
                        0 <= l < j ==> cell_type(#[trigger] row.cells@[l])
                            == self.columns@[l].data_type,
                decreases self.columns@.len() - j,
            {
                if !cell_has_type(&row.cells[j], &self.columns[j].data_type) {
                    assert(!row_wf(self.rows@[i as int], self.columns@));
                    return false;
                }
                j = j + 1;
            }
            assert(row_wf(self.rows@[i as int], self.columns@));
            i = i + 1;
        }
        true
    }
}

} // verus!
