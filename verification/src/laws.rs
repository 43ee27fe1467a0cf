//! The guarantees of a run, proved once and for all over the plan model:
//! kept and hidden entries survive, doomed entries do not, dry runs remove
//! nothing, and pruning is idempotent.

use vstd::prelude::*;

use crate::paths::hidden_path;
use crate::plan::EntryModel;
use crate::plan::disposal_step;
use crate::plan::doomed;
use crate::plan::entry_steps;
use crate::plan::prune_steps;
use crate::plan::removes;
use crate::plan::step_path;

verus! {

/// Law: every path in the keep set survives a run. No step of any plan,
/// dry or not, removes a path that the keep set contains.
pub proof fn lemma_keep_never_removed(
    entries: Seq<EntryModel>,
    keep: Seq<Seq<char>>,
    verbose: bool,
    dry: bool,
)
    ensures
        forall|i: int|
            0 <= i < prune_steps(entries, keep, verbose, dry).len() && removes(
                #[trigger] prune_steps(entries, keep, verbose, dry)[i],
            ) ==> !keep.contains(step_path(prune_steps(entries, keep, verbose, dry)[i])),
    decreases entries.len(),
{
    if entries.len() > 0 {
        lemma_keep_never_removed(entries.drop_last(), keep, verbose, dry);
        let prefix = prune_steps(entries.drop_last(), keep, verbose, dry);
        let tail = entry_steps(entries.last(), keep, verbose, dry);
        let steps = prune_steps(entries, keep, verbose, dry);
        assert forall|i: int| 0 <= i < steps.len() && removes(#[trigger] steps[i]) implies !keep
            .contains(step_path(steps[i])) by {
            if i < prefix.len() {
                assert(steps[i] == prefix[i]);
            } else {
                assert(steps[i] == tail[i - prefix.len()]);
            }
        }
    }
}

/// Law: hidden entries are never deleted, whatever the keep set holds. No
/// step of any plan removes a hidden path.
pub proof fn lemma_hidden_never_removed(
    entries: Seq<EntryModel>,
    keep: Seq<Seq<char>>,
    verbose: bool,
    dry: bool,
)
    ensures
        forall|i: int|
            0 <= i < prune_steps(entries, keep, verbose, dry).len() && removes(
                #[trigger] prune_steps(entries, keep, verbose, dry)[i],
            ) ==> !hidden_path(step_path(prune_steps(entries, keep, verbose, dry)[i])),
    decreases entries.len(),
{
    if entries.len() > 0 {
        lemma_hidden_never_removed(entries.drop_last(), keep, verbose, dry);
        let prefix = prune_steps(entries.drop_last(), keep, verbose, dry);
        let tail = entry_steps(entries.last(), keep, verbose, dry);
        let steps = prune_steps(entries, keep, verbose, dry);
        assert forall|i: int| 0 <= i < steps.len() && removes(#[trigger] steps[i]) implies !hidden_path(
            step_path(steps[i]),
        ) by {
            if i < prefix.len() {
                assert(steps[i] == prefix[i]);
            } else {
                assert(steps[i] == tail[i - prefix.len()]);
            }
        }
    }
}

/// Law: after a non-dry run no unkept, unhidden direct child is left
/// behind. The plan of a non-dry run disposes of every entry that is
/// neither hidden nor kept: plain files and directories by deletion,
/// entries of any other kind by an unsupported-entry report.
pub proof fn lemma_doomed_entries_removed(
    entries: Seq<EntryModel>,
    keep: Seq<Seq<char>>,
    verbose: bool,
)
    ensures
        forall|j: int|
            0 <= j < entries.len() && !hidden_path(#[trigger] entries[j].path) && !keep.contains(
                entries[j].path,
            ) ==> prune_steps(entries, keep, verbose, false).contains(disposal_step(entries[j])),
    decreases entries.len(),
{
    if entries.len() > 0 {
        lemma_doomed_entries_removed(entries.drop_last(), keep, verbose);
        let prefix = prune_steps(entries.drop_last(), keep, verbose, false);
        let tail = entry_steps(entries.last(), keep, verbose, false);
        let steps = prune_steps(entries, keep, verbose, false);
        assert forall|j: int|
            0 <= j < entries.len() && !hidden_path(#[trigger] entries[j].path) && !keep.contains(
                entries[j].path,
            ) implies steps.contains(disposal_step(entries[j])) by {
            if j < entries.len() - 1 {
                assert(entries.drop_last()[j] == entries[j]);
                assert(prefix.contains(disposal_step(entries[j])));
                let i = choose|i: int|
                    0 <= i < prefix.len() && prefix[i] == disposal_step(entries[j]);
                assert(steps[i] == disposal_step(entries[j]));
            } else {
                assert(tail.last() == disposal_step(entries.last()));
                assert(steps.last() == disposal_step(entries[j]));
            }
        }
    }
}

/// Law: a dry run never touches the filesystem. Every step of a dry plan
/// is an announcement; in particular nothing is removed.
pub proof fn lemma_dry_run_removes_nothing(
    entries: Seq<EntryModel>,
    keep: Seq<Seq<char>>,
    verbose: bool,
)
    ensures
        forall|i: int|
            0 <= i < prune_steps(entries, keep, verbose, true).len() ==> prune_steps(
                entries,
                keep,
                verbose,
                true,
            )[i] is Announce,
    decreases entries.len(),
{
    if entries.len() > 0 {
        lemma_dry_run_removes_nothing(entries.drop_last(), keep, verbose);
        let prefix = prune_steps(entries.drop_last(), keep, verbose, true);
        let tail = entry_steps(entries.last(), keep, verbose, true);
        let steps = prune_steps(entries, keep, verbose, true);
        assert forall|i: int| 0 <= i < steps.len() implies steps[i] is Announce by {
            if i < prefix.len() {
                assert(steps[i] == prefix[i]);
            } else {
                assert(steps[i] == tail[i - prefix.len()]);
            }
        }
    }
}

/// The entries that a non-dry run leaves in the directory: the hidden ones,
/// the kept ones, and those of unsupported kind, in listing order.
pub open spec fn remaining(entries: Seq<EntryModel>, keep: Seq<Seq<char>>) -> Seq<EntryModel>
    decreases entries.len(),
{
    if entries.len() == 0 {
        Seq::<EntryModel>::empty()
    } else if doomed(entries.last(), keep) {
        remaining(entries.drop_last(), keep)
    } else {
        remaining(entries.drop_last(), keep).push(entries.last())
    }
}

/// No entry that a run leaves behind is doomed under the same keep set.
pub proof fn lemma_remaining_not_doomed(entries: Seq<EntryModel>, keep: Seq<Seq<char>>)
    ensures
        forall|j: int|
            0 <= j < remaining(entries, keep).len() ==> !doomed(
                #[trigger] remaining(entries, keep)[j],
                keep,
            ),
    decreases entries.len(),
{
    if entries.len() > 0 {
        lemma_remaining_not_doomed(entries.drop_last(), keep);
        let r = remaining(entries.drop_last(), keep);
        if !doomed(entries.last(), keep) {
            assert forall|j: int| 0 <= j < remaining(entries, keep).len() implies !doomed(
                #[trigger] remaining(entries, keep)[j],
                keep,
            ) by {
                if j < r.len() {
                    assert(remaining(entries, keep)[j] == r[j]);
                } else {
                    assert(remaining(entries, keep)[j] == entries.last());
                }
            }
        }
    }
}

/// A plan over a listing without doomed entries removes nothing.
pub proof fn lemma_undoomed_plan_removes_nothing(
    entries: Seq<EntryModel>,
    keep: Seq<Seq<char>>,
    verbose: bool,
    dry: bool,
)
    requires
        forall|j: int| 0 <= j < entries.len() ==> !doomed(#[trigger] entries[j], keep),
    ensures
        forall|i: int|
            0 <= i < prune_steps(entries, keep, verbose, dry).len() ==> !removes(
                #[trigger] prune_steps(entries, keep, verbose, dry)[i],
            ),
    decreases entries.len(),
{
    if entries.len() > 0 {
        assert(forall|j: int|
            0 <= j < entries.drop_last().len() ==> !doomed(
                #[trigger] entries.drop_last()[j],
                keep,
            ));
        lemma_undoomed_plan_removes_nothing(entries.drop_last(), keep, verbose, dry);
        let prefix = prune_steps(entries.drop_last(), keep, verbose, dry);
        let tail = entry_steps(entries.last(), keep, verbose, dry);
        let steps = prune_steps(entries, keep, verbose, dry);
        assert(!doomed(entries.last(), keep));
        assert forall|i: int| 0 <= i < steps.len() implies !removes(#[trigger] steps[i]) by {
            if i < prefix.len() {
                assert(steps[i] == prefix[i]);
            } else {
                assert(steps[i] == tail[i - prefix.len()]);
            }
        }
    }
}

/// Law (idempotence): a second run with the same keep set plans no further
/// removal, so it leaves the directory exactly as the first run left it.
pub proof fn lemma_second_run_removes_nothing(
    entries: Seq<EntryModel>,
    keep: Seq<Seq<char>>,
    verbose: bool,
    dry: bool,
)
    ensures
        forall|i: int|
            0 <= i < prune_steps(remaining(entries, keep), keep, verbose, dry).len() ==> !removes(
                #[trigger] prune_steps(remaining(entries, keep), keep, verbose, dry)[i],
            ),
{
    lemma_remaining_not_doomed(entries, keep);
    lemma_undoomed_plan_removes_nothing(remaining(entries, keep), keep, verbose, dry);
}

/// Law (idempotence, state form): what remains after pruning the remains of
/// a run is the remains of that run — running twice ends in the same
/// directory state as running once.
pub proof fn lemma_prune_idempotent(entries: Seq<EntryModel>, keep: Seq<Seq<char>>)
    ensures
        remaining(remaining(entries, keep), keep) == remaining(entries, keep),
    decreases entries.len(),
{
    if entries.len() == 0 {
        assert(remaining(remaining(entries, keep), keep) =~= remaining(entries, keep));
    } else {
        lemma_prune_idempotent(entries.drop_last(), keep);
        if doomed(entries.last(), keep) {
        } else {
            let r = remaining(entries.drop_last(), keep);
            assert(remaining(entries, keep) == r.push(entries.last()));
            assert(r.push(entries.last()).drop_last() =~= r);
            assert(r.push(entries.last()).last() == entries.last());
            assert(remaining(r.push(entries.last()), keep) =~= remaining(r, keep).push(
                entries.last(),
            ));
        }
    }
}

} // verus!

