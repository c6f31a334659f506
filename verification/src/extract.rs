//! What is done with one entry: where it goes, whether it is written at
//! all, and which bytes are written. Nothing here touches a file; the
//! caller looks whether the destination exists and writes what it is
//! handed.

use vstd::prelude::*;
use vstd::slice::*;
use crate::error::EntryError;
use crate::inflate::{inflate, zlib_inflated};
use crate::kind::EntryKind;
use crate::layout::OffsetResolver;
use crate::nested::{
    is_nonzero, law_last_nested_container_decides, law_no_nested_container_no_magic,
    magic_is_nonzero, magic_of, nested_version, seeded_magic,
};
use crate::path::{destination_of, is_safe, normalized};
use crate::toc::{TocEntry, TocEntryModel, FLAG_DEFLATE};

verus! {

/// What is written in front of an inflated payload: the bytecode magic for
/// a source module where a magic was found, and nothing otherwise.
pub open spec fn magic_prefix(kind: EntryKind, magic: Seq<u8>) -> Seq<u8> {
    if kind == EntryKind::SourceModule && is_nonzero(magic) {
        magic
    } else {
        Seq::<u8>::empty()
    }
}

/// What is written for a compressed entry, given what the decoder made of
/// its payload.
pub open spec fn assembled(kind: EntryKind, magic: Seq<u8>, inflated: Option<Seq<u8>>) -> Result<
    Seq<u8>,
    EntryError,
> {
    match inflated {
        Some(bytes) => Ok(magic_prefix(kind, magic) + bytes),
        None => Err(EntryError::DecompressionFailure),
    }
}

/// The bytes of the file that `entry` points at. Meaningful where they lie
/// in the file.
pub open spec fn raw_payload(buf: Seq<u8>, layout: OffsetResolver, entry: TocEntryModel) -> Seq<
    u8,
> {
    buf.subrange(
        layout.resolved(entry.rel_offset),
        layout.resolved(entry.rel_offset) + entry.compressed_size,
    )
}

/// The bytes that are written for `entry`: its payload as it lies in the
/// file where it is stored, and what `assembled` makes of it where it is
/// compressed.
pub open spec fn payload_of(
    buf: Seq<u8>,
    layout: OffsetResolver,
    entry: TocEntryModel,
    magic: Seq<u8>,
) -> Result<Seq<u8>, EntryError> {
    if !layout.in_bounds(buf.len() as int, entry.rel_offset, entry.compressed_size) {
        Err(EntryError::EntryRangeOutOfBounds)
    } else if entry.compression_flag == FLAG_DEFLATE {
        assembled(entry.kind, magic, zlib_inflated(raw_payload(buf, layout, entry)))
    } else {
        Ok(raw_payload(buf, layout, entry))
    }
}

/// Whether `got` holds the bytes, or is the error, that `want` asks for.
pub open spec fn bytes_match(
    got: Result<Vec<u8>, EntryError>,
    want: Result<Seq<u8>, EntryError>,
) -> bool {
    match got {
        Ok(bytes) => want == Ok::<Seq<u8>, EntryError>(bytes@),
        Err(e) => want == Err::<Seq<u8>, EntryError>(e),
    }
}

/// The view of what a decoder gave.
pub open spec fn inflated_view(inflated: Option<Vec<u8>>) -> Option<Seq<u8>> {
    match inflated {
        Some(bytes) => Some(bytes@),
        None => None,
    }
}

/// Puts together what is written for a compressed entry of kind `kind`,
/// given what the decoder made of its payload.
pub fn assemble(kind: EntryKind, magic: &[u8; 16], inflated: Option<Vec<u8>>) -> (out: Result<
    Vec<u8>,
    EntryError,
>)
    ensures
        bytes_match(out, assembled(kind, magic@, inflated_view(inflated))),
{
    match inflated {
        None => Err(EntryError::DecompressionFailure),
        Some(bytes) => {
            let mut bytes = bytes;
            if kind.is_source_module() && magic_is_nonzero(magic) {
                let mut out: Vec<u8> = slice_to_vec(magic.as_slice());
                out.append(&mut bytes);
                Ok(out)
            } else {
                Ok(bytes)
            }
        },
    }
}

/// The bytes that are written for `entry`.
pub fn entry_payload(
    buf: &[u8],
    layout: &OffsetResolver,
    entry: &TocEntry,
    magic: &[u8; 16],
) -> (out: Result<Vec<u8>, EntryError>)
    ensures
        bytes_match(out, payload_of(buf@, *layout, entry@, magic@)),
{
    match layout.range(buf.len(), entry.rel_offset, entry.compressed_size) {
        None => Err(EntryError::EntryRangeOutOfBounds),
        Some((start, end)) => {
            let raw = slice_subrange(buf, start, end);
            if entry.is_compressed() {
                assemble(entry.kind, magic, inflate(raw))
            } else {
                Ok(slice_to_vec(raw))
            }
        },
    }
}

/// The path below the output root at which `entry` is written.
pub fn destination(entry: &TocEntry) -> (path: Result<String, EntryError>)
    ensures
        path is Ok <==> is_safe(normalized(entry@.name)),
        path matches Ok(p) ==> p@ == normalized(entry@.name),
        path matches Err(e) ==> e == EntryError::UnsafeEntryPath,
{
    match destination_of(entry.name.as_str()) {
        Some(path) => Ok(path),
        None => Err(EntryError::UnsafeEntryPath),
    }
}

/// What is to be done with one entry.
#[derive(Debug)]
pub enum EntryPlan {
    /// The destination is there already: nothing is written.
    Skip,
    /// These bytes are written to the destination.
    Write(Vec<u8>),
    /// Nothing is written, for this reason.
    Fail(EntryError),
}

/// A plan as the contracts see it.
pub enum EntryPlanModel {
    Skip,
    Write(Seq<u8>),
    Fail(EntryError),
}

impl View for EntryPlan {
    type V = EntryPlanModel;

    open spec fn view(&self) -> EntryPlanModel {
        match self {
            EntryPlan::Skip => EntryPlanModel::Skip,
            EntryPlan::Write(bytes) => EntryPlanModel::Write(bytes@),
            EntryPlan::Fail(e) => EntryPlanModel::Fail(*e),
        }
    }
}

/// How one entry ended.
#[derive(Clone, Copy, Debug, PartialEq, Eq, Structural)]
pub enum EntryOutcome {
    Written,
    Skipped,
    Failed(EntryError),
}

/// What is to be done with `entry`. A name that leads out of the root is
/// refused before anything else; then an entry whose destination exists is
/// skipped, whatever its payload; only then is the payload looked at.
pub open spec fn plan_of(
    buf: Seq<u8>,
    layout: OffsetResolver,
    entry: TocEntryModel,
    magic: Seq<u8>,
    destination_exists: bool,
) -> EntryPlanModel {
    if !is_safe(normalized(entry.name)) {
        EntryPlanModel::Fail(EntryError::UnsafeEntryPath)
    } else if destination_exists {
        EntryPlanModel::Skip
    } else {
        match payload_of(buf, layout, entry, magic) {
            Ok(bytes) => EntryPlanModel::Write(bytes),
            Err(e) => EntryPlanModel::Fail(e),
        }
    }
}

/// How an entry ends once its plan is carried out; `wrote` says whether the
/// bytes of a `Write` reached the destination.
pub open spec fn outcome_of(plan: EntryPlanModel, wrote: bool) -> EntryOutcome {
    match plan {
        EntryPlanModel::Skip => EntryOutcome::Skipped,
        EntryPlanModel::Fail(e) => EntryOutcome::Failed(e),
        EntryPlanModel::Write(_) => if wrote {
            EntryOutcome::Written
        } else {
            EntryOutcome::Failed(EntryError::IoWriteFailure)
        },
    }
}

/// Decides what is to be done with `entry`, given whether its destination
/// exists.
pub fn plan_entry(
    buf: &[u8],
    layout: &OffsetResolver,
    entry: &TocEntry,
    magic: &[u8; 16],
    destination_exists: bool,
) -> (plan: EntryPlan)
    ensures
        plan@ == plan_of(buf@, *layout, entry@, magic@, destination_exists),
{
    match destination(entry) {
        Err(e) => EntryPlan::Fail(e),
        Ok(_) => {
            if destination_exists {
                EntryPlan::Skip
            } else {
                match entry_payload(buf, layout, entry, magic) {
                    Ok(bytes) => EntryPlan::Write(bytes),
                    Err(e) => EntryPlan::Fail(e),
                }
            }
        },
    }
}

impl EntryPlan {
    /// How the entry ends once this plan is carried out; `wrote` says
    /// whether the bytes of a `Write` reached the destination.
    pub fn outcome(&self, wrote: bool) -> (outcome: EntryOutcome)
        ensures
            outcome == outcome_of(self@, wrote),
    {
        match self {
            EntryPlan::Skip => EntryOutcome::Skipped,
            EntryPlan::Fail(e) => EntryOutcome::Failed(*e),
            EntryPlan::Write(_) => if wrote {
                EntryOutcome::Written
            } else {
                EntryOutcome::Failed(EntryError::IoWriteFailure)
            },
        }
    }
}

/// How many entries were written, skipped and failed.
#[derive(Clone, Copy, Debug, PartialEq, Eq, Structural)]
pub struct ExtractionSummary {
    pub written: usize,
    pub skipped: usize,
    pub failed: usize,
}

/// The number of `Written` among `outcomes`.
pub open spec fn written_in(outcomes: Seq<EntryOutcome>) -> nat
    decreases outcomes.len(),
{
    if outcomes.len() == 0 {
        0
    } else {
        written_in(outcomes.drop_last()) + if outcomes.last() is Written {
            1nat
        } else {
            0nat
        }
    }
}

/// The number of `Skipped` among `outcomes`.
pub open spec fn skipped_in(outcomes: Seq<EntryOutcome>) -> nat
    decreases outcomes.len(),
{
    if outcomes.len() == 0 {
        0
    } else {
        skipped_in(outcomes.drop_last()) + if outcomes.last() is Skipped {
            1nat
        } else {
            0nat
        }
    }
}

/// The number of `Failed` among `outcomes`.
pub open spec fn failed_in(outcomes: Seq<EntryOutcome>) -> nat
    decreases outcomes.len(),
{
    if outcomes.len() == 0 {
        0
    } else {
        failed_in(outcomes.drop_last()) + if outcomes.last() is Failed {
            1nat
        } else {
            0nat
        }
    }
}

/// Every outcome is counted once.
pub proof fn law_every_outcome_counted(outcomes: Seq<EntryOutcome>)
    ensures
        written_in(outcomes) + skipped_in(outcomes) + failed_in(outcomes) == outcomes.len(),
    decreases outcomes.len(),
{
    if outcomes.len() > 0 {
        law_every_outcome_counted(outcomes.drop_last());
    }
}

/// Counts how the entries ended.
pub fn summarize(outcomes: &Vec<EntryOutcome>) -> (summary: ExtractionSummary)
    ensures
        summary.written == written_in(outcomes@),
        summary.skipped == skipped_in(outcomes@),
        summary.failed == failed_in(outcomes@),
{
    let mut summary = ExtractionSummary { written: 0, skipped: 0, failed: 0 };
    let n: usize = outcomes.len();
    let mut i: usize = 0;
    while i < n
        invariant
            n == outcomes@.len(),
            i <= n,
            summary.written == written_in(outcomes@.take(i as int)),
            summary.skipped == skipped_in(outcomes@.take(i as int)),
            summary.failed == failed_in(outcomes@.take(i as int)),
        decreases n - i,
    {
        proof {
            law_every_outcome_counted(outcomes@.take(i as int));
            assert(outcomes@.take(i + 1).drop_last() =~= outcomes@.take(i as int));
        }
        match outcomes[i] {
            EntryOutcome::Written => {
                summary.written += 1;
            },
            EntryOutcome::Skipped => {
                summary.skipped += 1;
            },
            EntryOutcome::Failed(_) => {
                summary.failed += 1;
            },
        }
        i += 1;
    }
    assert(outcomes@.take(n as int) =~= outcomes@);
    summary
}

impl ExtractionSummary {
    /// The status that the process ends with: 0 where no entry failed, and 1
    /// otherwise.
    pub fn exit_code(&self) -> (code: i32)
        ensures
            code == if self.failed == 0 {
                0i32
            } else {
                1i32
            },
    {
        if self.failed == 0 {
            0
        } else {
            1
        }
    }
}

/// A stored entry comes out byte for byte: what is written for it is the
/// range of the file that it points at.
pub proof fn law_stored_payload_is_raw(
    buf: Seq<u8>,
    layout: OffsetResolver,
    entry: TocEntryModel,
    magic: Seq<u8>,
)
    requires
        entry.compression_flag != FLAG_DEFLATE,
        layout.in_bounds(buf.len() as int, entry.rel_offset, entry.compressed_size),
    ensures
        payload_of(buf, layout, entry, magic) == Ok::<Seq<u8>, EntryError>(
            buf.subrange(
                layout.resolved(entry.rel_offset),
                layout.resolved(entry.rel_offset) + entry.compressed_size,
            ),
        ),
        is_safe(normalized(entry.name)) ==> plan_of(buf, layout, entry, magic, false)
            == EntryPlanModel::Write(raw_payload(buf, layout, entry)),
{
}

/// Without a magic nothing is put in front of any payload, and with one
/// only in front of a source module's.
pub proof fn law_prefix_only_with_magic(kind: EntryKind, magic: Seq<u8>)
    ensures
        !is_nonzero(magic) ==> magic_prefix(kind, magic) == Seq::<u8>::empty(),
        kind != EntryKind::SourceModule ==> magic_prefix(kind, magic) == Seq::<u8>::empty(),
        kind == EntryKind::SourceModule && is_nonzero(magic) ==> magic_prefix(kind, magic) == magic,
{
}

/// Where the table holds no nested archive, nothing is put in front of any
/// payload.
pub proof fn law_no_nested_container_no_prefix(
    buf: Seq<u8>,
    layout: OffsetResolver,
    entries: Seq<TocEntryModel>,
    kind: EntryKind,
)
    requires
        forall|i: int| 0 <= i < entries.len() ==> entries[i].kind != EntryKind::NestedContainer,
    ensures
        magic_prefix(kind, magic_of(buf, layout, entries)) == Seq::<u8>::empty(),
{
    law_no_nested_container_no_magic(buf, layout, entries);
}

/// What is put in front of a source module's inflated payload starts with
/// the version bytes of the table's last nested archive, where these can be
/// read and are not all zero.
pub proof fn law_prefix_starts_with_last_version(
    buf: Seq<u8>,
    layout: OffsetResolver,
    entries: Seq<TocEntryModel>,
    last: int,
    inflated: Seq<u8>,
)
    requires
        0 <= last < entries.len(),
        nested_version(buf, layout, entries[last]) is Some,
        is_nonzero(nested_version(buf, layout, entries[last])->Some_0),
        forall|i: int| last < i < entries.len() ==> entries[i].kind != EntryKind::NestedContainer,
    ensures
        magic_prefix(EntryKind::SourceModule, magic_of(buf, layout, entries)).len() == 16,
        magic_prefix(EntryKind::SourceModule, magic_of(buf, layout, entries)).subrange(0, 4)
            == nested_version(buf, layout, entries[last])->Some_0,
        assembled(
            EntryKind::SourceModule,
            magic_of(buf, layout, entries),
            Some(inflated),
        ) == Ok::<Seq<u8>, EntryError>(
            seeded_magic(nested_version(buf, layout, entries[last])->Some_0) + inflated,
        ),
{
    law_last_nested_container_decides(buf, layout, entries, last);
    let version = nested_version(buf, layout, entries[last])->Some_0;
    let i = choose|i: int| 0 <= i < version.len() && version[i] != 0;
    assert(seeded_magic(version)[i] != 0);
}

/// An entry whose destination exists is never written: it is skipped, or
/// refused for its name.
pub proof fn law_existing_destination_is_kept(
    buf: Seq<u8>,
    layout: OffsetResolver,
    entry: TocEntryModel,
    magic: Seq<u8>,
    wrote: bool,
)
    ensures
        !(plan_of(buf, layout, entry, magic, true) is Write),
        outcome_of(plan_of(buf, layout, entry, magic, true), wrote) != EntryOutcome::Written,
        is_safe(normalized(entry.name)) ==> outcome_of(
            plan_of(buf, layout, entry, magic, true),
            wrote,
        ) == EntryOutcome::Skipped,
{
}

/// A run in which no entry failed counts no failure, so that it ends with
/// status 0.
pub proof fn law_no_failure_counted(outcomes: Seq<EntryOutcome>)
    requires
        forall|i: int| 0 <= i < outcomes.len() ==> !(outcomes[i] is Failed),
    ensures
        failed_in(outcomes) == 0,
    decreases outcomes.len(),
{
    if outcomes.len() > 0 {
        law_no_failure_counted(outcomes.drop_last());
    }
}

} // verus!
