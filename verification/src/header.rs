//! The archive's header: the signature and four big-endian `u32`.

use vstd::prelude::*;
use crate::bytes::{be_u32, read_be_u32, word_at};
use crate::error::ArchiveError;
use crate::layout::HEADER_LEN;
use crate::signature::{is_signature_at, signature, signature_at, SIGNATURE};

verus! {

/// The fixed part of the header.
#[derive(Clone, Copy, Debug)]
pub struct ArchiveHeader {
    /// The signature, as it was read.
    pub signature: [u8; 8],
    /// The length of the archive, header included.
    pub package_size: u32,
    /// Where the table of contents starts, counted from the archive's start.
    pub toc_offset: u32,
    /// The length of the table of contents.
    pub toc_size: u32,
    /// The interpreter's version: a hundred times the major number, plus
    /// the minor number.
    pub runtime_version: u32,
}

impl ArchiveHeader {
    /// The signature field holds the signature.
    pub open spec fn wf(&self) -> bool {
        self.signature@ == signature()
    }

    /// The interpreter's major version.
    pub open spec fn spec_runtime_major(&self) -> int {
        self.runtime_version as int / 100
    }

    /// The interpreter's minor version.
    pub open spec fn spec_runtime_minor(&self) -> int {
        self.runtime_version as int % 100
    }

    /// The interpreter's major version: 3 for 310.
    pub fn runtime_major(&self) -> (major: u32)
        ensures
            major == self.spec_runtime_major(),
    {
        self.runtime_version / 100
    }

    /// The interpreter's minor version: 10 for 310.
    pub fn runtime_minor(&self) -> (minor: u32)
        ensures
            minor == self.spec_runtime_minor(),
            minor < 100,
            100 * self.spec_runtime_major() + minor == self.runtime_version,
    {
        self.runtime_version % 100
    }
}

/// Whether a header can be read at `at`: its 24 bytes lie in the file and
/// start with the signature.
pub open spec fn header_readable(buf: Seq<u8>, at: int) -> bool {
    at + HEADER_LEN <= buf.len() && signature_at(buf, at)
}

/// Whether `header` holds what stands at `at`.
pub open spec fn header_holds(header: ArchiveHeader, buf: Seq<u8>, at: int) -> bool {
    &&& header.wf()
    &&& header.package_size == be_u32(word_at(buf, at + 8))
    &&& header.toc_offset == be_u32(word_at(buf, at + 12))
    &&& header.toc_size == be_u32(word_at(buf, at + 16))
    &&& header.runtime_version == be_u32(word_at(buf, at + 20))
}

/// Reads the header that starts at `buf[at]`.
pub fn parse_header(buf: &[u8], at: usize) -> (header: Result<ArchiveHeader, ArchiveError>)
    ensures
        header is Ok <==> header_readable(buf@, at as int),
        header matches Ok(h) ==> header_holds(h, buf@, at as int),
        header matches Err(e) ==> e == ArchiveError::HeaderTruncatedOrInvalid,
{
    if buf.len() < HEADER_LEN || at > buf.len() - HEADER_LEN {
        return Err(ArchiveError::HeaderTruncatedOrInvalid);
    }
    if !is_signature_at(buf, at) {
        return Err(ArchiveError::HeaderTruncatedOrInvalid);
    }
    let header = ArchiveHeader {
        signature: SIGNATURE,
        package_size: read_be_u32(buf, at + 8).unwrap(),
        toc_offset: read_be_u32(buf, at + 12).unwrap(),
        toc_size: read_be_u32(buf, at + 16).unwrap(),
        runtime_version: read_be_u32(buf, at + 20).unwrap(),
    };
    Ok(header)
}

} // verus!
