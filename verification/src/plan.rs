//! The pruner: given the listing of a directory and the keep set, compute
//! the plan of a run — which entries are announced, deleted as files,
//! deleted as directory trees, or reported as unsupported.

use vstd::prelude::*;

use crate::paths::absolute_path;
use crate::paths::hidden_path;
use crate::paths::is_hidden;
use crate::resolve::PruneError;
use crate::resolve::contains_path;
use crate::resolve::lemma_path_vec_deep_view;
use crate::resolve::validate_keep;

verus! {

/// What kind of filesystem entry a direct child is.
#[derive(Clone, Copy, PartialEq, Eq, Structural, Debug)]
pub enum EntryKind {
    File,
    Directory,
    Other,
}

/// A direct child of the target directory: its canonical absolute path and
/// its kind.
#[derive(Debug, PartialEq, Eq)]
pub struct Entry {
    pub path: String,
    pub kind: EntryKind,
}

/// The mathematical model of an entry.
pub struct EntryModel {
    pub path: Seq<char>,
    pub kind: EntryKind,
}

impl View for Entry {
    type V = EntryModel;

    open spec fn view(&self) -> EntryModel {
        EntryModel { path: self.path@, kind: self.kind }
    }
}

impl DeepView for Entry {
    type V = EntryModel;

    open spec fn deep_view(&self) -> EntryModel {
        self@
    }
}

/// One step of a run, in the order the run performs them.
#[derive(Debug, PartialEq, Eq)]
pub enum Action {
    /// Print that the named entry is being (or would be) deleted.
    Announce(String),
    /// Remove the named entry as a plain file.
    DeleteFile(String),
    /// Remove the named entry as a directory, together with its contents.
    DeleteDir(String),
    /// Report the named entry as neither file nor directory and leave it.
    ReportUnsupported(String),
}

/// The mathematical model of a step.
pub enum StepModel {
    Announce(Seq<char>),
    DeleteFile(Seq<char>),
    DeleteDir(Seq<char>),
    ReportUnsupported(Seq<char>),
}

impl View for Action {
    type V = StepModel;

    open spec fn view(&self) -> StepModel {
        match self {
            Action::Announce(p) => StepModel::Announce(p@),
            Action::DeleteFile(p) => StepModel::DeleteFile(p@),
            Action::DeleteDir(p) => StepModel::DeleteDir(p@),
            Action::ReportUnsupported(p) => StepModel::ReportUnsupported(p@),
        }
    }
}

impl DeepView for Action {
    type V = StepModel;

    open spec fn deep_view(&self) -> StepModel {
        self@
    }
}

/// The path a step names.
pub open spec fn step_path(s: StepModel) -> Seq<char> {
    match s {
        StepModel::Announce(p) => p,
        StepModel::DeleteFile(p) => p,
        StepModel::DeleteDir(p) => p,
        StepModel::ReportUnsupported(p) => p,
    }
}

/// Whether a step removes something from the filesystem.
pub open spec fn removes(s: StepModel) -> bool {
    s is DeleteFile || s is DeleteDir
}

/// The step that disposes of one doomed entry, by its kind.
pub open spec fn disposal_step(e: EntryModel) -> StepModel {
    match e.kind {
        EntryKind::File => StepModel::DeleteFile(e.path),
        EntryKind::Directory => StepModel::DeleteDir(e.path),
        EntryKind::Other => StepModel::ReportUnsupported(e.path),
    }
}

/// An entry is doomed when a non-dry run removes it: it is neither hidden
/// nor kept, and it is a plain file or a directory.
pub open spec fn doomed(e: EntryModel, keep: Seq<Seq<char>>) -> bool {
    &&& !hidden_path(e.path)
    &&& !keep.contains(e.path)
    &&& (e.kind == EntryKind::File || e.kind == EntryKind::Directory)
}

/// The steps a run takes for one enumerated entry. Hidden and kept entries
/// produce none; any other entry is announced when the run is verbose, and,
/// unless the run is dry, disposed of by its kind.
pub open spec fn entry_steps(
    e: EntryModel,
    keep: Seq<Seq<char>>,
    verbose: bool,
    dry: bool,
) -> Seq<StepModel> {
    if hidden_path(e.path) || keep.contains(e.path) {
        Seq::<StepModel>::empty()
    } else {
        let announce = if verbose {
            seq![StepModel::Announce(e.path)]
        } else {
            Seq::<StepModel>::empty()
        };
        if dry {
            announce
        } else {
            announce + seq![disposal_step(e)]
        }
    }
}

/// The full plan of a run: the steps for each enumerated entry, in listing
/// order.
pub open spec fn prune_steps(
    entries: Seq<EntryModel>,
    keep: Seq<Seq<char>>,
    verbose: bool,
    dry: bool,
) -> Seq<StepModel>
    decreases entries.len(),
{
    if entries.len() == 0 {
        Seq::<StepModel>::empty()
    } else {
        prune_steps(entries.drop_last(), keep, verbose, dry) + entry_steps(
            entries.last(),
            keep,
            verbose,
            dry,
        )
    }
}

/// The view of each entry in a listing is the matching element of the
/// listing's deep view.
pub proof fn lemma_entry_vec_deep_view(v: &Vec<Entry>)
    ensures
        v.deep_view().len() == v@.len(),
        forall|i: int| 0 <= i < v@.len() ==> #[trigger] v.deep_view()[i] == v@[i]@,
{
}

/// Computes the plan for deleting every enumerated entry that is neither
/// hidden nor kept: announcements when verbose, no removals when dry, and
/// otherwise one removal (or unsupported-entry report) per doomed entry.
pub fn rm_except(entries: &Vec<Entry>, keep: &Vec<String>, verbose: bool, dry: bool) -> (plan: Vec<
    Action,
>)
    requires
        forall|i: int| 0 <= i < keep.deep_view().len() ==> absolute_path(keep.deep_view()[i]),
    ensures
        plan.deep_view() == prune_steps(entries.deep_view(), keep.deep_view(), verbose, dry),
{
    let n = entries.len();
    let mut plan: Vec<Action> = Vec::new();
    let mut i: usize = 0;
    while i < n
        invariant
            n == entries@.len(),
            i <= n,
            forall|j: int|
                0 <= j < keep.deep_view().len() ==> absolute_path(keep.deep_view()[j]),
            plan.deep_view() =~= prune_steps(
                entries.deep_view().take(i as int),
                keep.deep_view(),
                verbose,
                dry,
            ),
        decreases n - i,
    {
        let ghost prefix = entries.deep_view().take(i as int);
        let ghost plan_before = plan.deep_view();
        let e = &entries[i];
        proof {
            lemma_entry_vec_deep_view(entries);
            let ext = entries.deep_view().take(i + 1 as int);
            assert(ext.drop_last() =~= prefix);
            assert(ext.last() == e@);
            assert(prune_steps(ext, keep.deep_view(), verbose, dry) == prune_steps(
                prefix,
                keep.deep_view(),
                verbose,
                dry,
            ) + entry_steps(e@, keep.deep_view(), verbose, dry));
        }
        let hid = is_hidden(e.path.as_str());
        if !hid && !contains_path(keep, &e.path) {
            if verbose {
                plan.push(Action::Announce(e.path.clone()));
                proof {
                    assert(plan.deep_view() =~= plan_before.push(
                        StepModel::Announce(e@.path),
                    ));
                }
            }
            if !dry {
                let step = match e.kind {
                    EntryKind::File => Action::DeleteFile(e.path.clone()),
                    EntryKind::Directory => Action::DeleteDir(e.path.clone()),
                    EntryKind::Other => Action::ReportUnsupported(e.path.clone()),
                };
                let ghost plan_mid = plan.deep_view();
                proof {
                    assert(step@ == disposal_step(e@));
                }
                plan.push(step);
                proof {
                    assert(plan.deep_view() =~= plan_mid.push(disposal_step(e@)));
                }
            }
            proof {
                assert(plan.deep_view() =~= plan_before + entry_steps(
                    e@,
                    keep.deep_view(),
                    verbose,
                    dry,
                ));
            }
        } else {
            proof {
                assert(entry_steps(e@, keep.deep_view(), verbose, dry) =~= Seq::<
                    StepModel,
                >::empty());
                assert(plan.deep_view() =~= plan_before + entry_steps(
                    e@,
                    keep.deep_view(),
                    verbose,
                    dry,
                ));
            }
        }
        i = i + 1;
    }
    proof {
        assert(entries.deep_view().take(n as int) =~= entries.deep_view());
    }
    plan
}

/// The subsequence of a listing that is not hidden, in listing order.
pub open spec fn visible(entries: Seq<EntryModel>) -> Seq<EntryModel>
    decreases entries.len(),
{
    if entries.len() == 0 {
        Seq::<EntryModel>::empty()
    } else if hidden_path(entries.last().path) {
        visible(entries.drop_last())
    } else {
        visible(entries.drop_last()).push(entries.last())
    }
}

/// Lists a directory's enumerated entries without the hidden ones.
pub fn filter_hidden(entries: &Vec<Entry>) -> (r: Vec<Entry>)
    ensures
        r.deep_view() == visible(entries.deep_view()),
{
    let n = entries.len();
    let mut r: Vec<Entry> = Vec::new();
    let mut i: usize = 0;
    while i < n
        invariant
            n == entries@.len(),
            i <= n,
            r.deep_view() =~= visible(entries.deep_view().take(i as int)),
        decreases n - i,
    {
        let ghost prefix = entries.deep_view().take(i as int);
        let ghost r_before = r.deep_view();
        let e = &entries[i];
        proof {
            lemma_entry_vec_deep_view(entries);
            let ext = entries.deep_view().take(i + 1 as int);
            assert(ext.drop_last() =~= prefix);
            assert(ext.last() == e@);
        }
        if !is_hidden(e.path.as_str()) {
            r.push(Entry { path: e.path.clone(), kind: e.kind });
            proof {
                assert(r.deep_view() =~= r_before.push(e@));
            }
        }
        i = i + 1;
    }
    proof {
        assert(entries.deep_view().take(n as int) =~= entries.deep_view());
    }
    r
}

/// The paths of a listing, in listing order.
pub open spec fn entry_paths(entries: Seq<EntryModel>) -> Seq<Seq<char>> {
    entries.map_values(|e: EntryModel| e.path)
}

/// One whole run: validate that every kept path is a direct child of the
/// target directory (judged against the complete listing, hidden entries
/// included), and only then compute the deletion plan. A run whose keep set
/// fails validation aborts with the offending path and plans nothing.
pub fn plan_run(entries: &Vec<Entry>, keep: &Vec<String>, verbose: bool, dry: bool) -> (r: Result<
    Vec<Action>,
    PruneError,
>)
    requires
        forall|i: int| 0 <= i < keep.deep_view().len() ==> absolute_path(keep.deep_view()[i]),
    ensures
        match r {
            Ok(plan) => ({
                &&& forall|i: int|
                    0 <= i < keep@.len() ==> entry_paths(entries.deep_view()).contains(
                        keep.deep_view()[i],
                    )
                &&& plan.deep_view() == prune_steps(
                    entries.deep_view(),
                    keep.deep_view(),
                    verbose,
                    dry,
                )
            }),
            Err(e) => ({
                &&& e matches PruneError::NotInTargetDirectory(p)
                &&& exists|i: int|
                    {
                        &&& 0 <= i < keep@.len()
                        &&& !entry_paths(entries.deep_view()).contains(keep.deep_view()[i])
                        &&& p == keep@[i]
                        &&& forall|j: int|
                            0 <= j < i ==> entry_paths(entries.deep_view()).contains(
                                keep.deep_view()[j],
                            )
                    }
            }),
        },
{
    let n = entries.len();
    let mut all_paths: Vec<String> = Vec::new();
    let mut i: usize = 0;
    while i < n
        invariant
            n == entries@.len(),
            i <= n,
            all_paths@.len() == i,
            forall|j: int| 0 <= j < i ==> #[trigger] all_paths@[j]@ == entries@[j]@.path,
        decreases n - i,
    {
        all_paths.push(entries[i].path.clone());
        i = i + 1;
    }
    proof {
        lemma_path_vec_deep_view(&all_paths);
        lemma_entry_vec_deep_view(entries);
        assert(all_paths.deep_view() =~= entry_paths(entries.deep_view()));
    }
    match validate_keep(&all_paths, keep) {
        Ok(()) => Ok(rm_except(entries, keep, verbose, dry)),
        Err(e) => Err(e),
    }
}

} // verus!
