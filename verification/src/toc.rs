//! The table of contents: records of varying length, one after the other,
//! each of which says how long it is.

use vstd::prelude::*;
use vstd::slice::*;
use crate::bytes::{be_u32, read_be_u32, word_at};
use crate::error::ArchiveError;
use crate::kind::{kind_of_tag, EntryKind};
use crate::name::{decode_name, decoded_name};

verus! {

/// The bytes that every record starts with: four big-endian `u32`, the
/// compression flag and the kind's tag.
pub const ENTRY_PREFIX_LEN: usize = 18;

/// The compression flag of a payload that is a zlib stream. Every other
/// value marks a payload that is stored as it is.
pub const FLAG_DEFLATE: u8 = 1;

/// One record of the table of contents.
#[derive(Clone, Debug)]
pub struct TocEntry {
    /// The length of the whole record, prefix and name field included.
    pub size: u32,
    /// Where the payload starts, counted from the start of the archive.
    pub rel_offset: u32,
    /// The length of the payload as it lies in the file.
    pub compressed_size: u32,
    /// The length of the payload once inflated.
    pub uncompressed_size: u32,
    /// `FLAG_DEFLATE` for a zlib stream.
    pub compression_flag: u8,
    /// What the entry holds.
    pub kind: EntryKind,
    /// The entry's name; that of a source module ends in `.pyc`.
    pub name: String,
}

/// A record as the contracts see it: the name as a sequence of characters.
pub struct TocEntryModel {
    pub size: u32,
    pub rel_offset: u32,
    pub compressed_size: u32,
    pub uncompressed_size: u32,
    pub compression_flag: u8,
    pub kind: EntryKind,
    pub name: Seq<char>,
}

impl View for TocEntry {
    type V = TocEntryModel;

    open spec fn view(&self) -> TocEntryModel {
        TocEntryModel {
            size: self.size,
            rel_offset: self.rel_offset,
            compressed_size: self.compressed_size,
            uncompressed_size: self.uncompressed_size,
            compression_flag: self.compression_flag,
            kind: self.kind,
            name: self.name@,
        }
    }
}

impl TocEntry {
    /// The record is at least as long as its prefix, so that its name field
    /// has `size - 18` bytes, and its kind is written in the one way there
    /// is for its tag.
    pub open spec fn wf(&self) -> bool {
        self.size >= ENTRY_PREFIX_LEN && self.kind.wf()
    }

    /// Whether the payload is a zlib stream.
    pub open spec fn spec_is_compressed(&self) -> bool {
        self.compression_flag == FLAG_DEFLATE
    }

    /// Whether the payload is a zlib stream.
    #[verifier::when_used_as_spec(spec_is_compressed)]
    pub fn is_compressed(&self) -> (yes: bool)
        ensures
            yes == self.spec_is_compressed(),
    {
        self.compression_flag == FLAG_DEFLATE
    }
}

/// The models of a table's records, in the table's order.
pub open spec fn toc_model(toc: Seq<TocEntry>) -> Seq<TocEntryModel> {
    toc.map_values(|e: TocEntry| e@)
}

/// The record that starts at `at`, or the reason why none can be read there:
/// the prefix or the name field runs past the end of the file, the declared
/// size is less than the prefix takes, or the name is not UTF-8.
pub open spec fn record_at(buf: Seq<u8>, at: int) -> Result<TocEntryModel, ArchiveError> {
    if at < 0 || at + ENTRY_PREFIX_LEN > buf.len() {
        Err(ArchiveError::TocEntryCorrupt)
    } else {
        let size = be_u32(word_at(buf, at));
        let kind = kind_of_tag(buf[at + 17]);
        if size < ENTRY_PREFIX_LEN || at + size > buf.len() {
            Err(ArchiveError::TocEntryCorrupt)
        } else {
            match decoded_name(buf.subrange(at + ENTRY_PREFIX_LEN, at + size), kind) {
                None => Err(ArchiveError::TocEntryCorrupt),
                Some(name) => Ok(
                    TocEntryModel {
                        size: size as u32,
                        rel_offset: be_u32(word_at(buf, at + 4)) as u32,
                        compressed_size: be_u32(word_at(buf, at + 8)) as u32,
                        uncompressed_size: be_u32(word_at(buf, at + 12)) as u32,
                        compression_flag: buf[at + 16],
                        kind,
                        name,
                    },
                ),
            }
        }
    }
}

/// `rest` with `first` in front, where `rest` is a table; its error
/// otherwise.
pub open spec fn with_first(
    first: TocEntryModel,
    rest: Result<Seq<TocEntryModel>, ArchiveError>,
) -> Result<Seq<TocEntryModel>, ArchiveError> {
    match rest {
        Ok(entries) => Ok(seq![first] + entries),
        Err(e) => Err(e),
    }
}

/// The table whose first record starts at `at` and whose records take
/// `remaining` bytes in all. Records are read until the bytes are used up;
/// the first one that cannot be read ends the reading with its error, and
/// a record that takes more than is left is a `TocSizeMismatch`.
pub open spec fn table_at(buf: Seq<u8>, at: int, remaining: int) -> Result<
    Seq<TocEntryModel>,
    ArchiveError,
>
    decreases remaining,
{
    if remaining <= 0 {
        Ok(Seq::<TocEntryModel>::empty())
    } else {
        match record_at(buf, at) {
            Err(e) => Err(e),
            Ok(first) => {
                if first.size > remaining {
                    Err(ArchiveError::TocSizeMismatch)
                } else {
                    with_first(first, table_at(buf, at + first.size, remaining - first.size))
                }
            },
        }
    }
}

/// `rest` with the records of `prefix` in front, where `rest` is a table;
/// its error otherwise.
pub open spec fn with_prefix(
    prefix: Seq<TocEntryModel>,
    rest: Result<Seq<TocEntryModel>, ArchiveError>,
) -> Result<Seq<TocEntryModel>, ArchiveError> {
    match rest {
        Ok(entries) => Ok(prefix + entries),
        Err(e) => Err(e),
    }
}

/// The sum of the sizes that the records declare.
pub open spec fn total_size(entries: Seq<TocEntryModel>) -> int
    decreases entries.len(),
{
    if entries.len() == 0 {
        0
    } else {
        total_size(entries.drop_last()) + entries.last().size
    }
}

/// The sizes of two tables put together add up.
pub proof fn lemma_total_size_concat(a: Seq<TocEntryModel>, b: Seq<TocEntryModel>)
    ensures
        total_size(a + b) == total_size(a) + total_size(b),
    decreases b.len(),
{
    if b.len() > 0 {
        assert((a + b).drop_last() =~= a + b.drop_last());
        lemma_total_size_concat(a, b.drop_last());
    }
}

/// The records of a table that was read take exactly the bytes that were
/// set aside for it: their sizes add up to `remaining`, with nothing left
/// over and nothing beyond.
pub proof fn law_table_sizes_add_up(buf: Seq<u8>, at: int, remaining: int)
    requires
        remaining >= 0,
        table_at(buf, at, remaining) is Ok,
    ensures
        total_size(table_at(buf, at, remaining)->Ok_0) == remaining,
    decreases remaining,
{
    if remaining > 0 {
        let first = record_at(buf, at)->Ok_0;
        let rest = table_at(buf, at + first.size, remaining - first.size);
        law_table_sizes_add_up(buf, at + first.size, remaining - first.size);
        lemma_total_size_concat(seq![first], rest->Ok_0);
        assert(total_size(seq![first]) == first.size) by {
            assert(total_size(seq![first].drop_last()) == 0);
        }
    }
}

/// A record that declares fewer bytes than its own prefix takes cannot be
/// read, and a table that comes to such a record is not read either: the
/// name's length is never taken from a difference below zero.
pub proof fn law_short_record_is_corrupt(buf: Seq<u8>, at: int, remaining: int)
    requires
        0 <= at,
        at + ENTRY_PREFIX_LEN <= buf.len(),
        be_u32(word_at(buf, at)) < ENTRY_PREFIX_LEN,
    ensures
        record_at(buf, at) == Err::<TocEntryModel, ArchiveError>(ArchiveError::TocEntryCorrupt),
        remaining > 0 ==> table_at(buf, at, remaining) == Err::<
            Seq<TocEntryModel>,
            ArchiveError,
        >(ArchiveError::TocEntryCorrupt),
{
}

/// Every record of a table that was read declares at least the bytes of its
/// prefix, and lies within the file.
pub proof fn law_records_hold_their_prefix(buf: Seq<u8>, at: int, remaining: int, i: int)
    requires
        table_at(buf, at, remaining) is Ok,
        0 <= i < table_at(buf, at, remaining)->Ok_0.len(),
    ensures
        table_at(buf, at, remaining)->Ok_0[i].size >= ENTRY_PREFIX_LEN,
    decreases remaining,
{
    if remaining > 0 {
        let first = record_at(buf, at)->Ok_0;
        if i > 0 {
            let rest = table_at(buf, at + first.size, remaining - first.size);
            law_records_hold_their_prefix(buf, at + first.size, remaining - first.size, i - 1);
        }
    }
}

/// Whether `got` is what the contract `want` asks for, the record taken by
/// its model.
pub open spec fn record_matches(
    got: Result<TocEntry, ArchiveError>,
    want: Result<TocEntryModel, ArchiveError>,
) -> bool {
    match got {
        Ok(entry) => want == Ok::<TocEntryModel, ArchiveError>(entry@),
        Err(e) => want == Err::<TocEntryModel, ArchiveError>(e),
    }
}

/// Whether `got` is what the contract `want` asks for, each record taken by
/// its model.
pub open spec fn table_matches(
    got: Result<Vec<TocEntry>, ArchiveError>,
    want: Result<Seq<TocEntryModel>, ArchiveError>,
) -> bool {
    match got {
        Ok(toc) => want == Ok::<Seq<TocEntryModel>, ArchiveError>(toc_model(toc@)),
        Err(e) => want == Err::<Seq<TocEntryModel>, ArchiveError>(e),
    }
}

/// Reads the record that starts at `buf[at]`.
pub fn parse_entry(buf: &[u8], at: usize) -> (entry: Result<TocEntry, ArchiveError>)
    ensures
        record_matches(entry, record_at(buf@, at as int)),
        entry matches Ok(e) ==> e.wf(),
{
    if buf.len() < ENTRY_PREFIX_LEN || at > buf.len() - ENTRY_PREFIX_LEN {
        return Err(ArchiveError::TocEntryCorrupt);
    }
    let size: u32 = read_be_u32(buf, at).unwrap();
    let rel_offset: u32 = read_be_u32(buf, at + 4).unwrap();
    let compressed_size: u32 = read_be_u32(buf, at + 8).unwrap();
    let uncompressed_size: u32 = read_be_u32(buf, at + 12).unwrap();
    let compression_flag: u8 = buf[at + 16];
    let kind = EntryKind::from_tag(buf[at + 17]);
    if size < 18 || size as usize > buf.len() - at {
        return Err(ArchiveError::TocEntryCorrupt);
    }
    let field = slice_subrange(buf, at + ENTRY_PREFIX_LEN, at + size as usize);
    match decode_name(field, kind) {
        None => Err(ArchiveError::TocEntryCorrupt),
        Some(name) => Ok(
            TocEntry {
                size,
                rel_offset,
                compressed_size,
                uncompressed_size,
                compression_flag,
                kind,
                name,
            },
        ),
    }
}

/// Reads the table of contents that starts at `buf[start]` and takes
/// `toc_size` bytes.
pub fn parse_toc(buf: &[u8], start: usize, toc_size: u32) -> (toc: Result<
    Vec<TocEntry>,
    ArchiveError,
>)
    ensures
        table_matches(toc, table_at(buf@, start as int, toc_size as int)),
        toc matches Ok(entries) ==> total_size(toc_model(entries@)) == toc_size,
        toc matches Ok(entries) ==> forall|i: int| 0 <= i < entries@.len() ==> entries@[i].wf(),
{
    let mut toc: Vec<TocEntry> = Vec::new();
    let mut at: usize = start;
    let mut left: u32 = toc_size;
    let file_len: usize = buf.len();
    while left > 0
        invariant
            file_len == buf@.len(),
            table_at(buf@, start as int, toc_size as int) == with_prefix(
                toc_model(toc@),
                table_at(buf@, at as int, left as int),
            ),
            total_size(toc_model(toc@)) + left == toc_size,
            forall|i: int| 0 <= i < toc@.len() ==> toc@[i].wf(),
        decreases left,
    {
        match parse_entry(buf, at) {
            Err(e) => {
                return Err(e);
            },
            Ok(entry) => {
                if entry.size > left {
                    return Err(ArchiveError::TocSizeMismatch);
                }
                proof {
                    let before = toc_model(toc@);
                    let after = toc_model(toc@.push(entry));
                    let rest = table_at(buf@, at + entry.size, left - entry.size);
                    assert(after.drop_last() =~= before);
                    assert(rest is Ok ==> before + (seq![entry@] + rest->Ok_0) =~= after
                        + rest->Ok_0);
                }
                left -= entry.size;
                at += entry.size as usize;
                toc.push(entry);
            },
        }
    }
    Ok(toc)
}

} // verus!
