//! Reading a whole archive out of the bytes of a file: the signature, the
//! header, the layout, the table of contents and the bytecode magic, one
//! after the other. The first step that fails ends the reading.

use vstd::prelude::*;
use crate::bytes::{be_u32, word_at};
use crate::error::ArchiveError;
use crate::header::{header_holds, header_readable, parse_header, ArchiveHeader};
use crate::layout::{base_offset_of, layout_fits, trailing_of, OffsetResolver, TrailingSize};
use crate::nested::{bytecode_magic, magic_of};
use crate::signature::{find_signature, has_signature, is_first_signature};
use crate::toc::{parse_toc, table_at, toc_model, total_size, TocEntry, TocEntryModel};

verus! {

/// What was read from a file.
#[derive(Debug)]
pub struct Archive {
    /// Where the header was found.
    pub header_offset: usize,
    /// The header's fixed part.
    pub header: ArchiveHeader,
    /// How the offsets of the header and of the records are resolved.
    pub layout: OffsetResolver,
    /// The records of the table of contents, in the file's order.
    pub toc: Vec<TocEntry>,
    /// The prefix of bytecode files; all zero where no nested archive gave
    /// one.
    pub bytecode_magic: [u8; 16],
}

/// The first place in `buf` at which the signature stands. Meaningful where
/// it stands anywhere.
pub open spec fn first_signature(buf: Seq<u8>) -> int {
    choose|at: int| is_first_signature(buf, at)
}

/// Where the table of contents starts in a file of `file_len` bytes whose
/// header, found at `header_offset`, declares `package_size` and
/// `toc_offset`.
pub open spec fn toc_start_of(
    file_len: int,
    header_offset: int,
    package_size: int,
    toc_offset: int,
    policy: TrailingSize,
) -> int {
    base_offset_of(file_len, header_offset, package_size) + trailing_of(
        policy,
        file_len,
        header_offset,
    ) + toc_offset
}

/// The table of contents of the archive whose header stands at `at`.
pub open spec fn table_of(buf: Seq<u8>, at: int, policy: TrailingSize) -> Result<
    Seq<TocEntryModel>,
    ArchiveError,
> {
    table_at(
        buf,
        toc_start_of(
            buf.len() as int,
            at,
            be_u32(word_at(buf, at + 8)),
            be_u32(word_at(buf, at + 12)),
            policy,
        ),
        be_u32(word_at(buf, at + 16)),
    )
}

/// Why no archive can be read from `buf`, or `None` where one can: the
/// signature stands nowhere; no header can be read at its first occurrence,
/// or the header's sizes do not fit the file; or the table of contents
/// cannot be read.
pub open spec fn archive_failure(buf: Seq<u8>, policy: TrailingSize) -> Option<ArchiveError> {
    if !has_signature(buf) {
        Some(ArchiveError::MagicNotFound)
    } else {
        let at = first_signature(buf);
        if !header_readable(buf, at) {
            Some(ArchiveError::HeaderTruncatedOrInvalid)
        } else if !layout_fits(buf.len() as int, at, be_u32(word_at(buf, at + 8)), policy) {
            Some(ArchiveError::HeaderTruncatedOrInvalid)
        } else {
            match table_of(buf, at, policy) {
                Err(e) => Some(e),
                Ok(_) => None,
            }
        }
    }
}

impl Archive {
    /// Whether this is what `buf` holds.
    pub open spec fn holds(&self, buf: Seq<u8>, policy: TrailingSize) -> bool {
        &&& is_first_signature(buf, self.header_offset as int)
        &&& header_holds(self.header, buf, self.header_offset as int)
        &&& self.layout.spec_base_offset() == base_offset_of(
            buf.len() as int,
            self.header_offset as int,
            self.header.package_size as int,
        )
        &&& self.layout.spec_trailing_size() == trailing_of(
            policy,
            buf.len() as int,
            self.header_offset as int,
        )
        &&& table_of(buf, self.header_offset as int, policy) == Ok::<
            Seq<TocEntryModel>,
            ArchiveError,
        >(toc_model(self.toc@))
        &&& total_size(toc_model(self.toc@)) == self.header.toc_size
        &&& forall|i: int| 0 <= i < self.toc@.len() ==> self.toc@[i].wf()
        &&& self.bytecode_magic@ == magic_of(buf, self.layout, toc_model(self.toc@))
    }
}

/// The signature has one first occurrence.
pub proof fn lemma_first_signature_is(buf: Seq<u8>, at: int)
    requires
        is_first_signature(buf, at),
    ensures
        has_signature(buf),
        first_signature(buf) == at,
{
    let chosen = first_signature(buf);
    assert(is_first_signature(buf, chosen));
}

/// Reads the archive that the file `buf` carries.
pub fn read_archive(buf: &[u8], policy: TrailingSize) -> (archive: Result<Archive, ArchiveError>)
    ensures
        archive is Ok <==> archive_failure(buf@, policy) is None,
        archive matches Err(e) ==> archive_failure(buf@, policy) == Some(e),
        archive matches Ok(a) ==> a.holds(buf@, policy),
{
    let header_offset: usize = match find_signature(buf) {
        None => {
            return Err(ArchiveError::MagicNotFound);
        },
        Some(at) => at,
    };
    proof {
        lemma_first_signature_is(buf@, header_offset as int);
    }
    let header: ArchiveHeader = match parse_header(buf, header_offset) {
        Err(e) => {
            return Err(e);
        },
        Ok(h) => h,
    };
    let layout: OffsetResolver = match OffsetResolver::new(
        buf.len(),
        header_offset,
        header.package_size,
        policy,
    ) {
        Err(e) => {
            return Err(e);
        },
        Ok(l) => l,
    };
    let parsed: Result<Vec<TocEntry>, ArchiveError> = match layout.resolve(
        buf.len(),
        header.toc_offset,
    ) {
        Some(start) => parse_toc(buf, start, header.toc_size),
        None => {
            if header.toc_size == 0 {
                let empty: Vec<TocEntry> = Vec::new();
                assert(toc_model(empty@) =~= Seq::<TocEntryModel>::empty());
                Ok(empty)
            } else {
                Err(ArchiveError::TocEntryCorrupt)
            }
        },
    };
    let toc: Vec<TocEntry> = match parsed {
        Err(e) => {
            return Err(e);
        },
        Ok(t) => t,
    };
    let magic: [u8; 16] = bytecode_magic(buf, &layout, &toc);
    Ok(Archive { header_offset, header, layout, toc, bytecode_magic: magic })
}

} // verus!
