//! What can go wrong while a table is opened or scanned.

use vstd::prelude::*;

verus! {

/// Why a trailer or a catalog is not of the format.
#[derive(Debug, PartialEq, Eq)]
pub enum FormatFault {
    /// Fewer bytes than the length field takes.
    TooShort,
    /// The length field is zero or negative.
    MetaSize,
    /// The length field asks for more bytes than precede it.
    Truncated,
    /// The catalog does not start with `{`.
    NotAnObject,
    /// The catalog could not be decoded; the decoder said why.
    Decode(String),
    /// This type is none of `int`, `float` and `str`.
    ValueType(String),
    /// A block holds a negative number of values.
    ValueCount,
    /// A block's least value is not at most its greatest.
    ValueRange,
    /// A column starts at a negative offset.
    StartOffset,
    /// A column has no block.
    BlockCount,
    /// A block's statistics are not of the column's type.
    Statistics,
    /// Two columns share a name.
    ColumnName,
}

/// Why a catalog does not fit the scan asked of it.
#[derive(Debug, Clone, Copy, PartialEq, Eq)]
pub enum SchemaFault {
    /// The block of this index has no statistics.
    MissingBlock(i32),
    /// No column has the name.
    MissingColumn,
    /// A block would lie beyond what a file offset can reach.
    OffsetRange,
    /// A bound is not of the column's type.
    Bound,
    /// The columns differ in their number of rows.
    RowCount,
}

/// The failures of this crate; none is retried.
#[derive(Debug, PartialEq, Eq)]
pub enum Error {
    /// There are `found` bytes where `expected` are needed: a block was
    /// delivered short, or its bytes end before a value does.
    Io { expected: u64, found: u64 },
    /// The file is not a db721 table.
    Format(FormatFault),
    /// Catalog and scan do not agree.
    SchemaInconsistency(SchemaFault),
    /// The string field of this index within its block is not valid UTF-8.
    Encoding { value: i32 },
}

/// A failure of a scan, with the place at which the scan stood: the column,
/// the index of the block it was at, and the file offset of that block.
#[derive(Debug, PartialEq, Eq)]
pub struct ScanError {
    pub column: String,
    pub block: i32,
    pub offset: u64,
    pub cause: Error,
}

} // verus!
