//! From offsets that are counted within the archive to positions in the
//! file. The launcher in front of the archive has an unknown length, so
//! everything is measured back from the end of the file.
//!
//! The base offset is the file's length, less the package, less the bytes
//! that the file holds after the header's fixed part. An offset stands for
//! the position `base offset + trailing size + offset`. Which trailing size
//! is added back there is the caller's choice, and it matters as soon as a
//! file goes on after its archive: with the measured one the archive is
//! taken to end with the file; with a fixed one it is taken to end that
//! many bytes after the header's fixed part.

use vstd::prelude::*;
use crate::error::ArchiveError;

verus! {

/// The length of the header's fixed part: signature and four `u32`.
pub const HEADER_LEN: usize = 24;

/// The bytes that a packer writes after the header's fixed part when
/// nothing else is appended to the file: the name of the interpreter's
/// library, padded to this length.
pub const LIBRARY_NAME_LEN: usize = 64;

/// How many bytes are taken to trail the header's fixed part when offsets
/// are resolved.
#[derive(Clone, Copy, Debug, PartialEq, Eq, Structural)]
pub enum TrailingSize {
    /// As many as the file holds after the header's fixed part.
    Measured,
    /// This many, whatever the file holds.
    Fixed(usize),
}

/// The bytes of a file of `file_len` bytes that come after the fixed part
/// of a header found at `header_offset`.
pub open spec fn measured_trailing(file_len: int, header_offset: int) -> int {
    file_len - (header_offset + HEADER_LEN)
}

/// The file's length less the package and less the bytes that trail the
/// header.
pub open spec fn base_offset_of(file_len: int, header_offset: int, package_size: int) -> int {
    file_len - package_size - measured_trailing(file_len, header_offset)
}

/// The trailing size that `policy` asks for.
pub open spec fn trailing_of(policy: TrailingSize, file_len: int, header_offset: int) -> int {
    match policy {
        TrailingSize::Measured => measured_trailing(file_len, header_offset),
        TrailingSize::Fixed(n) => n as int,
    }
}

/// Whether the header's fixed part lies within the file, the package does
/// not reach back before the file's start, and the archive's start can be
/// held in a `usize`.
pub open spec fn layout_fits(
    file_len: int,
    header_offset: int,
    package_size: int,
    policy: TrailingSize,
) -> bool {
    &&& header_offset + HEADER_LEN <= file_len
    &&& base_offset_of(file_len, header_offset, package_size) >= 0
    &&& base_offset_of(file_len, header_offset, package_size) + trailing_of(
        policy,
        file_len,
        header_offset,
    ) <= usize::MAX
}

/// Turns offsets within the archive into positions in the file.
#[derive(Clone, Copy, Debug)]
pub struct OffsetResolver {
    base_offset: usize,
    trailing_size: usize,
}

impl OffsetResolver {
    /// The position that offset 0 stands for can be held in a `usize`.
    #[verifier::type_invariant]
    spec fn starts_within_usize(self) -> bool {
        self.base_offset + self.trailing_size <= usize::MAX
    }

    /// The file's length less the package and the measured trailing bytes.
    pub closed spec fn spec_base_offset(&self) -> usize {
        self.base_offset
    }

    /// The trailing size that is added back when an offset is resolved.
    pub closed spec fn spec_trailing_size(&self) -> usize {
        self.trailing_size
    }

    /// Where the archive starts in the file: the position that offset 0
    /// resolves to.
    pub open spec fn spec_data_start(&self) -> int {
        self.spec_base_offset() + self.spec_trailing_size()
    }

    /// The position in the file that the offset `rel` stands for.
    pub open spec fn resolved(&self, rel: u32) -> int {
        self.spec_data_start() + rel
    }

    /// Whether the `len` bytes at offset `rel` lie within a file of
    /// `file_len` bytes.
    pub open spec fn in_bounds(&self, file_len: int, rel: u32, len: u32) -> bool {
        self.resolved(rel) + len <= file_len
    }

    /// Works out the layout of a file of `file_len` bytes whose header was
    /// found at `header_offset` and declares a package of `package_size`
    /// bytes.
    pub fn new(
        file_len: usize,
        header_offset: usize,
        package_size: u32,
        policy: TrailingSize,
    ) -> (layout: Result<OffsetResolver, ArchiveError>)
        ensures
            layout is Ok <==> layout_fits(
                file_len as int,
                header_offset as int,
                package_size as int,
                policy,
            ),
            layout matches Ok(l) ==> {
                &&& l.spec_base_offset() == base_offset_of(
                    file_len as int,
                    header_offset as int,
                    package_size as int,
                )
                &&& l.spec_trailing_size() == trailing_of(
                    policy,
                    file_len as int,
                    header_offset as int,
                )
            },
            layout matches Err(e) ==> e == ArchiveError::HeaderTruncatedOrInvalid,
    {
        if file_len < HEADER_LEN || header_offset > file_len - HEADER_LEN {
            return Err(ArchiveError::HeaderTruncatedOrInvalid);
        }
        let measured: usize = file_len - (header_offset + HEADER_LEN);
        if package_size as usize > file_len {
            return Err(ArchiveError::HeaderTruncatedOrInvalid);
        }
        let before_end: usize = file_len - package_size as usize;
        if measured > before_end {
            return Err(ArchiveError::HeaderTruncatedOrInvalid);
        }
        let base_offset: usize = before_end - measured;
        let trailing_size: usize = match policy {
            TrailingSize::Measured => measured,
            TrailingSize::Fixed(n) => n,
        };
        if trailing_size > usize::MAX - base_offset {
            return Err(ArchiveError::HeaderTruncatedOrInvalid);
        }
        Ok(OffsetResolver { base_offset, trailing_size })
    }

    /// The file's length less the package and the measured trailing bytes.
    pub fn base_offset(&self) -> (n: usize)
        ensures
            n == self.spec_base_offset(),
    {
        self.base_offset
    }

    /// The trailing size that is added back when an offset is resolved.
    pub fn trailing_size(&self) -> (n: usize)
        ensures
            n == self.spec_trailing_size(),
    {
        self.trailing_size
    }

    /// Where the archive starts in the file.
    pub fn data_start(&self) -> (n: usize)
        ensures
            n == self.spec_data_start(),
    {
        proof {
            use_type_invariant(self);
        }
        self.base_offset + self.trailing_size
    }

    /// The positions, first and one past the last, that the `len` bytes at
    /// offset `rel` take in a file of `file_len` bytes; `None` where they do
    /// not all lie in the file.
    pub fn range(&self, file_len: usize, rel: u32, len: u32) -> (span: Option<(usize, usize)>)
        ensures
            span is Some <==> self.in_bounds(file_len as int, rel, len),
            span matches Some((start, end)) ==> start == self.resolved(rel) && end == start + len,
    {
        let start_of_data: usize = self.data_start();
        if start_of_data > file_len {
            return None;
        }
        let after_start: usize = file_len - start_of_data;
        if rel as usize > after_start {
            return None;
        }
        let after_rel: usize = after_start - rel as usize;
        if len as usize > after_rel {
            return None;
        }
        let start: usize = start_of_data + rel as usize;
        Some((start, start + len as usize))
    }

    /// The position that the offset `rel` stands for in a file of
    /// `file_len` bytes; `None` where it lies past the end of the file.
    pub fn resolve(&self, file_len: usize, rel: u32) -> (at: Option<usize>)
        ensures
            at is Some <==> self.in_bounds(file_len as int, rel, 0),
            at matches Some(p) ==> p == self.resolved(rel),
    {
        match self.range(file_len, rel, 0) {
            Some((start, _)) => Some(start),
            None => None,
        }
    }
}

/// With the measured trailing size the archive starts `package_size` bytes
/// before the end of the file, wherever the header was found.
pub proof fn law_measured_start(file_len: int, header_offset: int, package_size: int)
    ensures
        base_offset_of(file_len, header_offset, package_size) + trailing_of(
            TrailingSize::Measured,
            file_len,
            header_offset,
        ) == file_len - package_size,
{
}

/// With a fixed trailing size the archive starts `package_size` bytes
/// before the point that lies that many bytes after the header's fixed
/// part, whatever follows that point in the file. The two policies agree
/// exactly when the fixed size is the measured one.
pub proof fn law_fixed_start(file_len: int, header_offset: int, package_size: int, fixed: usize)
    ensures
        base_offset_of(file_len, header_offset, package_size) + trailing_of(
            TrailingSize::Fixed(fixed),
            file_len,
            header_offset,
        ) == header_offset + HEADER_LEN + fixed - package_size,
        fixed == measured_trailing(file_len, header_offset) <==> trailing_of(
            TrailingSize::Fixed(fixed),
            file_len,
            header_offset,
        ) == trailing_of(TrailingSize::Measured, file_len, header_offset),
{
}

} // verus!
