//! A whole run over a table, reasoned about without a file system: the
//! output tree is the set of paths that exist in it, entries are taken one
//! after the other, and every write that is planned succeeds.

use vstd::prelude::*;
use crate::extract::{failed_in, outcome_of, plan_of, written_in, EntryOutcome, EntryPlanModel};
use crate::layout::OffsetResolver;
use crate::path::normalized;
use crate::toc::TocEntryModel;

verus! {

/// The plan for `entry` when the paths of `tree` exist.
pub open spec fn plan_in(
    buf: Seq<u8>,
    layout: OffsetResolver,
    magic: Seq<u8>,
    tree: Set<Seq<char>>,
    entry: TocEntryModel,
) -> EntryPlanModel {
    plan_of(buf, layout, entry, magic, tree.contains(normalized(entry.name)))
}

/// The paths that exist after a run over `entries` that started with those
/// of `tree`: each entry that is written adds its destination.
pub open spec fn tree_after(
    buf: Seq<u8>,
    layout: OffsetResolver,
    magic: Seq<u8>,
    tree: Set<Seq<char>>,
    entries: Seq<TocEntryModel>,
) -> Set<Seq<char>>
    decreases entries.len(),
{
    if entries.len() == 0 {
        tree
    } else {
        let before = tree_after(buf, layout, magic, tree, entries.drop_last());
        if plan_in(buf, layout, magic, before, entries.last()) is Write {
            before.insert(normalized(entries.last().name))
        } else {
            before
        }
    }
}

/// How entry `i` ends in a run over `entries` that starts with the paths of
/// `tree`.
pub open spec fn outcome_at(
    buf: Seq<u8>,
    layout: OffsetResolver,
    magic: Seq<u8>,
    tree: Set<Seq<char>>,
    entries: Seq<TocEntryModel>,
    i: int,
) -> EntryOutcome {
    outcome_of(
        plan_in(
            buf,
            layout,
            magic,
            tree_after(buf, layout, magic, tree, entries.take(i)),
            entries[i],
        ),
        true,
    )
}

/// How the entries end in a run over `entries` that starts with the paths
/// of `tree`.
pub open spec fn outcomes_of(
    buf: Seq<u8>,
    layout: OffsetResolver,
    magic: Seq<u8>,
    tree: Set<Seq<char>>,
    entries: Seq<TocEntryModel>,
) -> Seq<EntryOutcome> {
    Seq::new(entries.len(), |i: int| outcome_at(buf, layout, magic, tree, entries, i))
}

/// A run removes nothing: what exists after a part of it exists after all
/// of it.
pub proof fn lemma_tree_grows(
    buf: Seq<u8>,
    layout: OffsetResolver,
    magic: Seq<u8>,
    tree: Set<Seq<char>>,
    entries: Seq<TocEntryModel>,
    i: int,
)
    requires
        0 <= i <= entries.len(),
    ensures
        tree_after(buf, layout, magic, tree, entries.take(i)).subset_of(
            tree_after(buf, layout, magic, tree, entries),
        ),
    decreases entries.len(),
{
    if i == entries.len() {
        assert(entries.take(i) =~= entries);
    } else {
        assert(entries.drop_last().take(i) =~= entries.take(i));
        lemma_tree_grows(buf, layout, magic, tree, entries.drop_last(), i);
    }
}

/// The destination of an entry that a run wrote or skipped exists after the
/// run.
pub proof fn lemma_kept_entry_exists(
    buf: Seq<u8>,
    layout: OffsetResolver,
    magic: Seq<u8>,
    tree: Set<Seq<char>>,
    entries: Seq<TocEntryModel>,
    i: int,
)
    requires
        0 <= i < entries.len(),
        !(outcome_at(buf, layout, magic, tree, entries, i) is Failed),
    ensures
        tree_after(buf, layout, magic, tree, entries).contains(normalized(entries[i].name)),
{
    let upto = entries.take(i + 1);
    assert(upto.drop_last() =~= entries.take(i));
    assert(upto.last() == entries[i]);
    assert(tree_after(buf, layout, magic, tree, upto).contains(normalized(entries[i].name)));
    lemma_tree_grows(buf, layout, magic, tree, entries, i + 1);
}

/// A second run over the same table leaves the tree as the first run left
/// it, at every point of the run.
pub proof fn lemma_second_run_keeps_tree(
    buf: Seq<u8>,
    layout: OffsetResolver,
    magic: Seq<u8>,
    tree: Set<Seq<char>>,
    entries: Seq<TocEntryModel>,
    i: int,
)
    requires
        0 <= i <= entries.len(),
    ensures
        tree_after(
            buf,
            layout,
            magic,
            tree_after(buf, layout, magic, tree, entries),
            entries.take(i),
        ) == tree_after(buf, layout, magic, tree, entries),
    decreases i,
{
    let first = tree_after(buf, layout, magic, tree, entries);
    if i > 0 {
        let upto = entries.take(i);
        assert(upto.drop_last() =~= entries.take(i - 1));
        assert(upto.last() == entries[i - 1]);
        lemma_second_run_keeps_tree(buf, layout, magic, tree, entries, i - 1);
        if plan_in(buf, layout, magic, first, entries[i - 1]) is Write {
            // Then the first run wrote this entry too, unless its
            // destination was there already: either way it exists.
            lemma_kept_entry_exists(buf, layout, magic, tree, entries, i - 1);
        }
    }
}

/// Running twice over the same output root: the second run finds the tree
/// as the first run left it and leaves it so, writes nothing, skips every
/// entry that the first run wrote or skipped, and fails on no entry on
/// which the first run did not fail.
pub proof fn law_second_run_changes_nothing(
    buf: Seq<u8>,
    layout: OffsetResolver,
    magic: Seq<u8>,
    tree: Set<Seq<char>>,
    entries: Seq<TocEntryModel>,
)
    ensures
        ({
            let first = tree_after(buf, layout, magic, tree, entries);
            let again = outcomes_of(buf, layout, magic, first, entries);
            let before = outcomes_of(buf, layout, magic, tree, entries);
            &&& tree_after(buf, layout, magic, first, entries) == first
            &&& written_in(again) == 0
            &&& forall|i: int|
                0 <= i < entries.len() && !(#[trigger] before[i] is Failed) ==> again[i]
                    == EntryOutcome::Skipped
            &&& failed_in(again) <= failed_in(before)
            &&& failed_in(before) == 0 ==> failed_in(again) == 0
        }),
{
    let first = tree_after(buf, layout, magic, tree, entries);
    let again = outcomes_of(buf, layout, magic, first, entries);
    let before = outcomes_of(buf, layout, magic, tree, entries);
    lemma_second_run_keeps_tree(buf, layout, magic, tree, entries, entries.len() as int);
    assert(entries.take(entries.len() as int) =~= entries);
    assert forall|i: int| 0 <= i < entries.len() implies !(#[trigger] again[i] is Written) by {
        lemma_second_run_keeps_tree(buf, layout, magic, tree, entries, i);
        lemma_second_run_keeps_tree(buf, layout, magic, tree, entries, i + 1);
        assert(entries.take(i + 1).drop_last() =~= entries.take(i));
    }
    assert forall|i: int|
        0 <= i < entries.len() && !(#[trigger] before[i] is Failed) implies again[i]
        == EntryOutcome::Skipped by {
        lemma_second_run_keeps_tree(buf, layout, magic, tree, entries, i);
        lemma_kept_entry_exists(buf, layout, magic, tree, entries, i);
    }
    lemma_none_written(again);
    lemma_fewer_failures(again, before);
}

/// Where no outcome is `Written`, none is counted as written.
pub proof fn lemma_none_written(outcomes: Seq<EntryOutcome>)
    requires
        forall|i: int| 0 <= i < outcomes.len() ==> !(outcomes[i] is Written),
    ensures
        written_in(outcomes) == 0,
    decreases outcomes.len(),
{
    if outcomes.len() > 0 {
        lemma_none_written(outcomes.drop_last());
    }
}

/// Where `a` fails only where `b` fails, `a` counts no more failures.
pub proof fn lemma_fewer_failures(a: Seq<EntryOutcome>, b: Seq<EntryOutcome>)
    requires
        a.len() == b.len(),
        forall|i: int| 0 <= i < a.len() && a[i] is Failed ==> b[i] is Failed,
    ensures
        failed_in(a) <= failed_in(b),
    decreases a.len(),
{
    if a.len() > 0 {
        lemma_fewer_failures(a.drop_last(), b.drop_last());
    }
}

} // verus!
