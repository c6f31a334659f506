//! What can go wrong while an archive is read or one of its entries is
//! extracted.

use vstd::prelude::*;

verus! {

/// A failure that ends the reading of an archive: once one of these has
/// happened the position of every later record is unknown.
#[derive(Clone, Copy, Debug, PartialEq, Eq, Structural)]
pub enum ArchiveError {
    /// The signature occurs nowhere in the file.
    MagicNotFound,
    /// Fewer than 24 bytes follow the header's offset, the signature is not
    /// there, or the sizes in the header do not fit the file.
    HeaderTruncatedOrInvalid,
    /// A record of the table of contents declares fewer bytes than its fixed
    /// part takes, runs past the end of the file, or holds a name that is
    /// not UTF-8.
    TocEntryCorrupt,
    /// The records read do not add up to the size that the header declares.
    TocSizeMismatch,
}

/// A failure that concerns one entry and leaves the others untouched.
#[derive(Clone, Copy, Debug, PartialEq, Eq, Structural)]
pub enum EntryError {
    /// The payload's byte range does not lie within the file.
    EntryRangeOutOfBounds,
    /// The name is absolute or climbs out of the output root.
    UnsafeEntryPath,
    /// The payload is marked as compressed and is no zlib stream.
    DecompressionFailure,
    /// The destination could not be created or written.
    IoWriteFailure,
}

} // verus!
