//! Failures of the disk access layer.
use vstd::prelude::*;

verus! {

/// Why an operation of the store failed.
#[derive(Debug, Clone, Copy, PartialEq, Eq, Structural)]
pub enum DalError {
    /// Opening, seeking, reading or writing the backing file failed.
    Io,
    /// Fewer bytes than a whole page were available.
    TruncatedRead,
    /// A page buffer does not hold exactly one page of bytes.
    InvalidPageSize,
    /// A free-list record claims more entries than its buffer holds, or an
    /// entry that is no page number.
    CorruptFreeList,
    /// A metadata record is shorter than its one field, or that field is no
    /// page number.
    CorruptMetaData,
    /// A page's byte offset does not fit in a file offset.
    OffsetOverflow,
}

} // verus!
