use vstd::prelude::*;

verus! {

/// SQLite serial type for a column value.
///
/// `Blob` and `Text` carry their byte length, derived from the raw
/// code by `(code - 12) / 2` (even codes) and `(code - 13) / 2`
/// (odd codes from 13 up).
#[derive(Debug, Clone, Copy, PartialEq, Eq, Structural)]
pub enum SerialType {
    Null,
    Int8,
    Int16,
    Int24,
    Int32,
    Int48,
    Int64,
    Float64,
    Zero,
    One,
    Reserved(u64),
    Blob(u64),
    Text(u64),
}

/// The serial type that a raw header code denotes.
pub open spec fn spec_serial_type_from_raw(value: u64) -> SerialType {
    if value == 0 {
        SerialType::Null
    } else if value == 1 {
        SerialType::Int8
    } else if value == 2 {
        SerialType::Int16
    } else if value == 3 {
        SerialType::Int24
    } else if value == 4 {
        SerialType::Int32
    } else if value == 5 {
        SerialType::Int48
    } else if value == 6 {
        SerialType::Int64
    } else if value == 7 {
        SerialType::Float64
    } else if value == 8 {
        SerialType::Zero
    } else if value == 9 {
        SerialType::One
    } else if value == 10 || value == 11 {
        SerialType::Reserved(value)
    } else if value % 2 == 0 {
        SerialType::Blob(((value - 12) / 2) as u64)
    } else {
        SerialType::Text(((value - 13) / 2) as u64)
    }
}

/// The width in bytes of a value of this serial type. The constant
/// types (`Null`, `Zero`, `One`, `Reserved`) occupy no value bytes.
pub open spec fn spec_serial_size(st: SerialType) -> u64 {
    match st {
        SerialType::Null => 0,
        SerialType::Int8 => 1,
        SerialType::Int16 => 2,
        SerialType::Int24 => 3,
        SerialType::Int32 => 4,
        SerialType::Int48 => 6,
        SerialType::Int64 => 8,
        SerialType::Float64 => 8,
        SerialType::Zero => 0,
        SerialType::One => 0,
        SerialType::Reserved(_) => 0,
        SerialType::Blob(n) => n,
        SerialType::Text(n) => n,
    }
}

impl SerialType {
    /// Decode a raw serial-type code from a record header.
    pub fn from_raw(value: u64) -> (r: Self)
        ensures
            r == spec_serial_type_from_raw(value),
    {
        if value == 0 {
            SerialType::Null
        } else if value == 1 {
            SerialType::Int8
        } else if value == 2 {
            SerialType::Int16
        } else if value == 3 {
            SerialType::Int24
        } else if value == 4 {
            SerialType::Int32
        } else if value == 5 {
            SerialType::Int48
        } else if value == 6 {
            SerialType::Int64
        } else if value == 7 {
            SerialType::Float64
        } else if value == 8 {
            SerialType::Zero
        } else if value == 9 {
            SerialType::One
        } else if value == 10 || value == 11 {
            SerialType::Reserved(value)
        } else if value % 2 == 0 {
            SerialType::Blob((value - 12) / 2)
        } else {
            SerialType::Text((value - 13) / 2)
        }
    }

    /// The width in bytes of a value of this serial type.
    pub fn size(&self) -> (r: u64)
        ensures
            r == spec_serial_size(*self),
    {
        match self {
            SerialType::Null => 0,
            SerialType::Int8 => 1,
            SerialType::Int16 => 2,
            SerialType::Int24 => 3,
            SerialType::Int32 => 4,
            SerialType::Int48 => 6,
            SerialType::Int64 => 8,
            SerialType::Float64 => 8,
            SerialType::Zero => 0,
            SerialType::One => 0,
            SerialType::Reserved(_) => 0,
            SerialType::Blob(n) => *n,
            SerialType::Text(n) => *n,
        }
    }
}

/// A decoded column value.
///
/// `Real` holds the raw IEEE-754 bit pattern of the big-endian 8-byte
/// float, so that the decoder stays exact; presentation layers turn it
/// into a native float when they display it.
#[derive(Debug, Clone, PartialEq)]
pub enum Value {
    Null,
    Integer(i64),
    Real(u64),
    Text(String),
    Blob(Vec<u8>),
}

/// The mathematical shape of a [`Value`].
pub enum ValueV {
    Null,
    Integer(i64),
    Real(u64),
    Text(Seq<char>),
    Blob(Seq<u8>),
}

impl View for Value {
    type V = ValueV;

    open spec fn view(&self) -> ValueV {
        match self {
            Value::Null => ValueV::Null,
            Value::Integer(n) => ValueV::Integer(*n),
            Value::Real(bits) => ValueV::Real(*bits),
            Value::Text(s) => ValueV::Text(s@),
            Value::Blob(b) => ValueV::Blob(b@),
        }
    }
}

impl DeepView for Value {
    type V = ValueV;

    open spec fn deep_view(&self) -> ValueV {
        self.view()
    }
}

/// A parsed record: a row payload's header and its column values.
#[derive(Debug, Clone, PartialEq)]
pub struct Record {
    /// Header size in bytes, as announced by the leading varint.
    pub header_size: u64,
    /// Column serial types, in header order.
    pub column_types: Vec<SerialType>,
    /// Column values, one per serial type.
    pub values: Vec<Value>,
}

/// The mathematical shape of a [`Record`].
pub struct RecordV {
    pub header_size: u64,
    pub column_types: Seq<SerialType>,
    pub values: Seq<ValueV>,
}

impl View for Record {
    type V = RecordV;

    open spec fn view(&self) -> RecordV {
        RecordV {
            header_size: self.header_size,
            column_types: self.column_types@,
            values: self.values.deep_view(),
        }
    }
}

impl DeepView for Record {
    type V = RecordV;

    open spec fn deep_view(&self) -> RecordV {
        self.view()
    }
}

/// Table B-tree leaf cell (page type 0x0d).
#[derive(Debug, Clone, PartialEq)]
pub struct TableLeafCell {
    /// Offset in page where cell starts.
    pub cell_offset: u16,
    /// Total size of cell in bytes.
    pub cell_size: usize,
    /// Total payload size (varint).
    pub payload_size: u64,
    /// Row ID (varint).
    pub rowid: i64,
    /// Local payload bytes stored in this cell.
    pub local_payload_size: usize,
    /// Parsed payload record.
    pub payload: Option<Record>,
    /// First overflow page number (if payload overflows).
    pub overflow_page: Option<u32>,
}

/// Table B-tree interior cell (page type 0x05).
#[derive(Debug, Clone, PartialEq, Eq, Structural)]
pub struct TableInteriorCell {
    /// Offset in page where cell starts.
    pub cell_offset: u16,
    /// Total size of cell in bytes.
    pub cell_size: usize,
    /// Left child page number (4-byte big-endian).
    pub left_child_page: u32,
    /// Row ID key (varint).
    pub rowid: i64,
}

/// Index B-tree leaf cell (page type 0x0a).
#[derive(Debug, Clone, PartialEq)]
pub struct IndexLeafCell {
    /// Offset in page where cell starts.
    pub cell_offset: u16,
    /// Total size of cell in bytes.
    pub cell_size: usize,
    /// Total payload size (varint).
    pub payload_size: u64,
    /// Local payload bytes stored in this cell.
    pub local_payload_size: usize,
    /// Parsed payload record.
    pub payload: Option<Record>,
    /// First overflow page number (if payload overflows).
    pub overflow_page: Option<u32>,
}

/// Index B-tree interior cell (page type 0x02).
#[derive(Debug, Clone, PartialEq)]
pub struct IndexInteriorCell {
    /// Offset in page where cell starts.
    pub cell_offset: u16,
    /// Total size of cell in bytes.
    pub cell_size: usize,
    /// Left child page number (4-byte big-endian).
    pub left_child_page: u32,
    /// Total payload size (varint).
    pub payload_size: u64,
    /// Local payload bytes stored in this cell.
    pub local_payload_size: usize,
    /// Parsed payload record.
    pub payload: Option<Record>,
    /// First overflow page number (if payload overflows).
    pub overflow_page: Option<u32>,
}

/// The mathematical shape of a [`TableLeafCell`].
pub struct TableLeafCellV {
    pub cell_offset: u16,
    pub cell_size: usize,
    pub payload_size: u64,
    pub rowid: i64,
    pub local_payload_size: usize,
    pub payload: Option<RecordV>,
    pub overflow_page: Option<u32>,
}

/// The mathematical shape of an [`IndexLeafCell`].
pub struct IndexLeafCellV {
    pub cell_offset: u16,
    pub cell_size: usize,
    pub payload_size: u64,
    pub local_payload_size: usize,
    pub payload: Option<RecordV>,
    pub overflow_page: Option<u32>,
}

/// The mathematical shape of an [`IndexInteriorCell`].
pub struct IndexInteriorCellV {
    pub cell_offset: u16,
    pub cell_size: usize,
    pub left_child_page: u32,
    pub payload_size: u64,
    pub local_payload_size: usize,
    pub payload: Option<RecordV>,
    pub overflow_page: Option<u32>,
}

/// The payload of an `Option<Record>`, viewed.
pub open spec fn spec_payload_view(p: &Option<Record>) -> Option<RecordV> {
    match p {
        Some(r) => Some(r@),
        None => None,
    }
}

impl View for TableLeafCell {
    type V = TableLeafCellV;

    open spec fn view(&self) -> TableLeafCellV {
        TableLeafCellV {
            cell_offset: self.cell_offset,
            cell_size: self.cell_size,
            payload_size: self.payload_size,
            rowid: self.rowid,
            local_payload_size: self.local_payload_size,
            payload: spec_payload_view(&self.payload),
            overflow_page: self.overflow_page,
        }
    }
}

impl View for IndexLeafCell {
    type V = IndexLeafCellV;

    open spec fn view(&self) -> IndexLeafCellV {
        IndexLeafCellV {
            cell_offset: self.cell_offset,
            cell_size: self.cell_size,
            payload_size: self.payload_size,
            local_payload_size: self.local_payload_size,
            payload: spec_payload_view(&self.payload),
            overflow_page: self.overflow_page,
        }
    }
}

impl View for IndexInteriorCell {
    type V = IndexInteriorCellV;

    open spec fn view(&self) -> IndexInteriorCellV {
        IndexInteriorCellV {
            cell_offset: self.cell_offset,
            cell_size: self.cell_size,
            left_child_page: self.left_child_page,
            payload_size: self.payload_size,
            local_payload_size: self.local_payload_size,
            payload: spec_payload_view(&self.payload),
            overflow_page: self.overflow_page,
        }
    }
}

/// A cell within a B-tree page, one variant per page kind.
#[derive(Debug, Clone, PartialEq)]
pub enum Cell {
    TableLeaf(TableLeafCell),
    TableInterior(TableInteriorCell),
    IndexLeaf(IndexLeafCell),
    IndexInterior(IndexInteriorCell),
}

/// The mathematical shape of a [`Cell`].
pub enum CellV {
    TableLeaf(TableLeafCellV),
    TableInterior(TableInteriorCell),
    IndexLeaf(IndexLeafCellV),
    IndexInterior(IndexInteriorCellV),
}

impl View for Cell {
    type V = CellV;

    open spec fn view(&self) -> CellV {
        match self {
            Cell::TableLeaf(c) => CellV::TableLeaf(c@),
            Cell::TableInterior(c) => CellV::TableInterior(*c),
            Cell::IndexLeaf(c) => CellV::IndexLeaf(c@),
            Cell::IndexInterior(c) => CellV::IndexInterior(c@),
        }
    }
}

impl DeepView for Cell {
    type V = CellV;

    open spec fn deep_view(&self) -> CellV {
        self.view()
    }
}

impl CellV {
    /// The left-child page number of an interior cell.
    pub open spec fn spec_left_child(self) -> Option<u32> {
        match self {
            CellV::TableInterior(c) => Some(c.left_child_page),
            CellV::IndexInterior(c) => Some(c.left_child_page),
            _ => None,
        }
    }

    /// The first overflow page of a payload-bearing cell.
    pub open spec fn spec_overflow_page(self) -> Option<u32> {
        match self {
            CellV::TableLeaf(c) => c.overflow_page,
            CellV::IndexLeaf(c) => c.overflow_page,
            CellV::IndexInterior(c) => c.overflow_page,
            CellV::TableInterior(_) => None,
        }
    }

    /// The rowid of a table cell.
    pub open spec fn spec_rowid(self) -> Option<i64> {
        match self {
            CellV::TableLeaf(c) => Some(c.rowid),
            CellV::TableInterior(c) => Some(c.rowid),
            _ => None,
        }
    }

    /// The announced payload size of a payload-bearing cell.
    pub open spec fn spec_payload_size(self) -> Option<u64> {
        match self {
            CellV::TableLeaf(c) => Some(c.payload_size),
            CellV::IndexLeaf(c) => Some(c.payload_size),
            CellV::IndexInterior(c) => Some(c.payload_size),
            CellV::TableInterior(_) => None,
        }
    }

    /// The payload bytes kept locally in a payload-bearing cell.
    pub open spec fn spec_local_payload_size(self) -> usize {
        match self {
            CellV::TableLeaf(c) => c.local_payload_size,
            CellV::IndexLeaf(c) => c.local_payload_size,
            CellV::IndexInterior(c) => c.local_payload_size,
            CellV::TableInterior(_) => 0,
        }
    }

    /// The byte offset where the cell starts in its page.
    pub open spec fn spec_cell_offset(self) -> u16 {
        match self {
            CellV::TableLeaf(c) => c.cell_offset,
            CellV::TableInterior(c) => c.cell_offset,
            CellV::IndexLeaf(c) => c.cell_offset,
            CellV::IndexInterior(c) => c.cell_offset,
        }
    }

    /// The total size of the cell in bytes.
    pub open spec fn spec_cell_size(self) -> usize {
        match self {
            CellV::TableLeaf(c) => c.cell_size,
            CellV::TableInterior(c) => c.cell_size,
            CellV::IndexLeaf(c) => c.cell_size,
            CellV::IndexInterior(c) => c.cell_size,
        }
    }
}

impl Cell {
    /// The left-child page number, for interior cells.
    pub fn left_child(&self) -> (r: Option<u32>)
        ensures
            r == self@.spec_left_child(),
    {
        match self {
            Cell::TableInterior(c) => Some(c.left_child_page),
            Cell::IndexInterior(c) => Some(c.left_child_page),
            _ => None,
        }
    }

    /// The first overflow page number, when the payload overflows.
    pub fn overflow_page(&self) -> (r: Option<u32>)
        ensures
            r == self@.spec_overflow_page(),
    {
        match self {
            Cell::TableLeaf(c) => c.overflow_page,
            Cell::IndexLeaf(c) => c.overflow_page,
            Cell::IndexInterior(c) => c.overflow_page,
            Cell::TableInterior(_) => None,
        }
    }

    /// The rowid, for table cells.
    pub fn rowid(&self) -> (r: Option<i64>)
        ensures
            r == self@.spec_rowid(),
    {
        match self {
            Cell::TableLeaf(c) => Some(c.rowid),
            Cell::TableInterior(c) => Some(c.rowid),
            _ => None,
        }
    }

    /// The announced payload size, for payload-bearing cells.
    pub fn payload_size(&self) -> (r: Option<u64>)
        ensures
            r == self@.spec_payload_size(),
    {
        match self {
            Cell::TableLeaf(c) => Some(c.payload_size),
            Cell::IndexLeaf(c) => Some(c.payload_size),
            Cell::IndexInterior(c) => Some(c.payload_size),
            Cell::TableInterior(_) => None,
        }
    }

    /// The byte offset where this cell starts in the page.
    pub fn cell_offset(&self) -> (r: u16)
        ensures
            r == self@.spec_cell_offset(),
    {
        match self {
            Cell::TableLeaf(c) => c.cell_offset,
            Cell::TableInterior(c) => c.cell_offset,
            Cell::IndexLeaf(c) => c.cell_offset,
            Cell::IndexInterior(c) => c.cell_offset,
        }
    }

    /// The total size of this cell in bytes.
    pub fn cell_size(&self) -> (r: usize)
        ensures
            r == self@.spec_cell_size(),
    {
        match self {
            Cell::TableLeaf(c) => c.cell_size,
            Cell::TableInterior(c) => c.cell_size,
            Cell::IndexLeaf(c) => c.cell_size,
            Cell::IndexInterior(c) => c.cell_size,
        }
    }
}

} // verus!
