//! The nested archive of compiled modules, of which only the header is read:
//! its version bytes are the start of the magic that a bytecode file opens
//! with.

use vstd::prelude::*;
use vstd::slice::*;
use crate::bytes::{le_u32, read_le_u32, word_at};
use crate::kind::EntryKind;
use crate::layout::OffsetResolver;
use crate::toc::{toc_model, TocEntry, TocEntryModel};

verus! {

/// The length of the nested archive's header.
pub const NESTED_HEADER_LEN: usize = 12;

/// The length of the prefix that is written in front of a bytecode file.
pub const BYTECODE_MAGIC_LEN: usize = 16;

/// The header that a nested archive starts with.
#[derive(Clone, Copy, Debug)]
pub struct NestedContainerHeader {
    /// The four bytes that mark the nested archive; they are not examined.
    pub magic: [u8; 4],
    /// The interpreter's bytecode magic.
    pub version: [u8; 4],
    /// Where the nested archive's own table lies, little-endian in the file.
    pub toc_offset: u32,
}

/// Reads the header that `content` starts with; `None` where `content` is
/// shorter than a header.
pub fn read_nested_header(content: &[u8]) -> (header: Option<NestedContainerHeader>)
    ensures
        header is Some <==> content@.len() >= NESTED_HEADER_LEN,
        header matches Some(h) ==> {
            &&& h.magic@ == content@.subrange(0, 4)
            &&& h.version@ == content@.subrange(4, 8)
            &&& h.toc_offset == le_u32(word_at(content@, 8))
        },
{
    if content.len() < NESTED_HEADER_LEN {
        return None;
    }
    let magic: [u8; 4] = [content[0], content[1], content[2], content[3]];
    let version: [u8; 4] = [content[4], content[5], content[6], content[7]];
    let toc_offset: u32 = read_le_u32(content, 8).unwrap();
    Some(NestedContainerHeader { magic, version, toc_offset })
}

/// The prefix that stands for "no magic was found": sixteen zero bytes.
pub open spec fn no_magic() -> Seq<u8> {
    Seq::new(BYTECODE_MAGIC_LEN as nat, |i: int| 0u8)
}

/// The prefix made from a nested archive's version bytes: these four, then
/// twelve zero bytes.
pub open spec fn seeded_magic(version: Seq<u8>) -> Seq<u8> {
    Seq::new(
        BYTECODE_MAGIC_LEN as nat,
        |i: int|
            if i < 4 {
                version[i]
            } else {
                0u8
            },
    )
}

/// Whether any byte of `magic` is not zero.
pub open spec fn is_nonzero(magic: Seq<u8>) -> bool {
    exists|i: int| 0 <= i < magic.len() && magic[i] != 0
}

/// The version bytes that `entry` gives: those of the header that its
/// payload starts with, where it is a nested archive whose payload lies in
/// the file and is long enough to hold a header.
pub open spec fn nested_version(
    buf: Seq<u8>,
    layout: OffsetResolver,
    entry: TocEntryModel,
) -> Option<Seq<u8>> {
    if entry.kind == EntryKind::NestedContainer && layout.in_bounds(
        buf.len() as int,
        entry.rel_offset,
        entry.compressed_size,
    ) && entry.compressed_size >= NESTED_HEADER_LEN {
        Some(
            buf.subrange(
                layout.resolved(entry.rel_offset) + 4,
                layout.resolved(entry.rel_offset) + 8,
            ),
        )
    } else {
        None
    }
}

/// The bytecode magic of a table: made from the version bytes of the last
/// entry that gives any, and `no_magic()` where none does.
pub open spec fn magic_of(buf: Seq<u8>, layout: OffsetResolver, entries: Seq<TocEntryModel>) -> Seq<
    u8,
>
    decreases entries.len(),
{
    if entries.len() == 0 {
        no_magic()
    } else {
        match nested_version(buf, layout, entries.last()) {
            Some(version) => seeded_magic(version),
            None => magic_of(buf, layout, entries.drop_last()),
        }
    }
}

/// Looks into `entry` for the version bytes of a nested archive.
pub fn inspect_nested(buf: &[u8], layout: &OffsetResolver, entry: &TocEntry) -> (version: Option<
    [u8; 4],
>)
    ensures
        version is Some <==> nested_version(buf@, *layout, entry@) is Some,
        version matches Some(v) ==> nested_version(buf@, *layout, entry@) == Some(v@),
{
    if !entry.kind.is_nested_container() {
        return None;
    }
    match layout.range(buf.len(), entry.rel_offset, entry.compressed_size) {
        None => None,
        Some((start, end)) => {
            match read_nested_header(slice_subrange(buf, start, end)) {
                None => None,
                Some(header) => {
                    Some(header.version)
                },
            }
        },
    }
}

/// Whether any byte of `magic` is not zero.
pub fn magic_is_nonzero(magic: &[u8; 16]) -> (yes: bool)
    ensures
        yes == is_nonzero(magic@),
{
    let mut i: usize = 0;
    while i < 16
        invariant
            i <= 16,
            forall|j: int| 0 <= j < i ==> magic@[j] == 0,
        decreases 16 - i,
    {
        if magic[i] != 0 {
            return true;
        }
        i += 1;
    }
    false
}

/// The prefix made from a nested archive's version bytes.
pub fn seed_magic(version: &[u8; 4]) -> (magic: [u8; 16])
    ensures
        magic@ == seeded_magic(version@),
{
    let magic: [u8; 16] = [
        version[0],
        version[1],
        version[2],
        version[3],
        0,
        0,
        0,
        0,
        0,
        0,
        0,
        0,
        0,
        0,
        0,
        0,
    ];
    magic
}

/// Walks the table and works out the bytecode magic: each nested archive
/// whose header can be read replaces what the ones before it gave.
pub fn bytecode_magic(buf: &[u8], layout: &OffsetResolver, toc: &Vec<TocEntry>) -> (magic: [u8; 16])
    ensures
        magic@ == magic_of(buf@, *layout, toc_model(toc@)),
{
    let mut magic: [u8; 16] = [0u8; 16];
    let n: usize = toc.len();
    let mut i: usize = 0;
    while i < n
        invariant
            n == toc@.len(),
            i <= n,
            magic@ == magic_of(buf@, *layout, toc_model(toc@).take(i as int)),
        decreases n - i,
    {
        let ghost upto = toc_model(toc@).take(i + 1);
        assert(upto.drop_last() =~= toc_model(toc@).take(i as int));
        match inspect_nested(buf, layout, &toc[i]) {
            Some(version) => {
                magic = seed_magic(&version);
            },
            None => {},
        }
        i += 1;
    }
    assert(toc_model(toc@).take(n as int) =~= toc_model(toc@));
    magic
}

/// A table without a nested archive gives no magic.
pub proof fn law_no_nested_container_no_magic(
    buf: Seq<u8>,
    layout: OffsetResolver,
    entries: Seq<TocEntryModel>,
)
    requires
        forall|i: int| 0 <= i < entries.len() ==> entries[i].kind != EntryKind::NestedContainer,
    ensures
        magic_of(buf, layout, entries) == no_magic(),
        !is_nonzero(magic_of(buf, layout, entries)),
    decreases entries.len(),
{
    if entries.len() > 0 {
        law_no_nested_container_no_magic(buf, layout, entries.drop_last());
    }
}

/// The last nested archive of a table decides: where its header can be
/// read, the magic starts with its version bytes, whatever the nested
/// archives before it hold.
pub proof fn law_last_nested_container_decides(
    buf: Seq<u8>,
    layout: OffsetResolver,
    entries: Seq<TocEntryModel>,
    last: int,
)
    requires
        0 <= last < entries.len(),
        nested_version(buf, layout, entries[last]) is Some,
        forall|i: int| last < i < entries.len() ==> entries[i].kind != EntryKind::NestedContainer,
    ensures
        magic_of(buf, layout, entries) == seeded_magic(
            nested_version(buf, layout, entries[last])->Some_0,
        ),
        magic_of(buf, layout, entries).subrange(0, 4) == nested_version(
            buf,
            layout,
            entries[last],
        )->Some_0,
    decreases entries.len(),
{
    if last < entries.len() - 1 {
        law_last_nested_container_decides(buf, layout, entries.drop_last(), last);
    }
}

} // verus!
