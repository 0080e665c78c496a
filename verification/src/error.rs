use vstd::prelude::*;

verus! {

/// The closed set of failures that decoding can report.
///
/// Structural failures (headers, cell-pointer arrays) surface one of these
/// to the caller; content-level anomalies are recovered locally by the
/// parsers and never become an error value.
#[derive(Debug, Clone, PartialEq, Eq)]
pub enum SqliteVizError {
    /// The 16-byte database magic string is wrong.
    InvalidMagic,
    /// The 4-byte WAL magic is neither of the two accepted constants.
    InvalidWalMagic(u32),
    /// A nonzero, unrecognized B-tree page-type byte.
    InvalidPageType(u8),
    /// A page number that cannot be used (zero, or otherwise unusable).
    InvalidPageNumber(u32),
    /// A varint was requested from an empty buffer.
    InvalidVarint,
    /// A serial-type code outside the defined range.
    InvalidSerialType(u64),
    /// A text-encoding code other than 1, 2 or 3.
    InvalidTextEncoding(u32),
    /// A page number beyond the known page count.
    PageOutOfBounds { page: u32, total: u32 },
    /// A required fixed-size region is shorter than its format demands.
    UnexpectedEof { context: &'static str },
    /// The schema catalog could not be interpreted.
    SchemaError(&'static str),
}

} // verus!
