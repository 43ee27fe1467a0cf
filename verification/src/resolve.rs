//! Validation of the keep set: every kept entry must resolve to an existing
//! direct child of the target directory, and a run aborts before any deletion
//! when one does not.

use vstd::prelude::*;

use crate::paths::absolute_path;

verus! {

/// Why a run aborts before any deletion happens.
#[derive(Debug, PartialEq, Eq)]
pub enum PruneError {
    /// A kept path does not resolve to an existing entry; carries the path
    /// as the caller wrote it.
    PathNotFound(String),
    /// A kept path resolves to an entry that is not a direct child of the
    /// target directory; carries the resolved path.
    NotInTargetDirectory(String),
    /// The target directory itself cannot be listed; carries its path.
    DirectoryUnreadable(String),
}

/// The view of each path in a vector of path strings is the matching element
/// of the vector's deep view.
pub proof fn lemma_path_vec_deep_view(v: &Vec<String>)
    ensures
        v.deep_view().len() == v@.len(),
        forall|i: int| 0 <= i < v@.len() ==> #[trigger] v.deep_view()[i] == v@[i]@,
{
}

/// Decides whether a listing contains a path, comparing canonical path
/// strings for equality.
pub fn contains_path(listing: &Vec<String>, p: &String) -> (r: bool)
    ensures
        r == listing.deep_view().contains(p@),
{
    proof {
        lemma_path_vec_deep_view(listing);
    }
    let n = listing.len();
    let mut i: usize = 0;
    while i < n
        invariant
            n == listing@.len(),
            i <= n,
            forall|j: int| 0 <= j < i ==> #[trigger] listing.deep_view()[j] != p@,
            forall|j: int|
                0 <= j < listing@.len() ==> #[trigger] listing.deep_view()[j] == listing@[j]@,
        decreases n - i,
    {
        let li = &listing[i];
        if li.eq(p) {
            proof {
                assert(listing.deep_view()[i as int] == p@);
            }
            return true;
        }
        i = i + 1;
    }
    false
}

/// Decides whether an entry is a direct child of a directory, given the
/// directory's complete listing (hidden entries included) as canonical
/// absolute paths.
pub fn in_directory(all_files: &Vec<String>, entry: &String) -> (r: bool)
    requires
        absolute_path(entry@),
    ensures
        r == all_files.deep_view().contains(entry@),
{
    contains_path(all_files, entry)
}

/// Assembles the canonical keep set from the caller's raw path strings and
/// the outcome of resolving each of them, where a resolution that failed is
/// `None`. The first path that failed to resolve aborts the run with
/// `PathNotFound`, before any deletion.
pub fn resolve_keep(raw: &Vec<String>, resolved: &Vec<Option<String>>) -> (r: Result<
    Vec<String>,
    PruneError,
>)
    requires
        raw@.len() == resolved@.len(),
    ensures
        match r {
            Ok(keep) => {
                &&& keep@.len() == resolved@.len()
                &&& forall|i: int|
                    0 <= i < resolved@.len() ==> ({
                        &&& #[trigger] resolved@[i] matches Some(s)
                        &&& keep@[i] == s
                    })
            },
            Err(e) => {
                &&& e matches PruneError::PathNotFound(p) && exists|i: int|
                    {
                        &&& 0 <= i < resolved@.len()
                        &&& resolved@[i] is None
                        &&& p == raw@[i]
                        &&& forall|j: int| 0 <= j < i ==> resolved@[j] is Some
                    }
            },
        },
{
    let n = raw.len();
    let mut keep: Vec<String> = Vec::new();
    let mut i: usize = 0;
    while i < n
        invariant
            n == raw@.len(),
            n == resolved@.len(),
            i <= n,
            keep@.len() == i,
            forall|j: int|
                0 <= j < i ==> ({
                    &&& #[trigger] resolved@[j] matches Some(s)
                    &&& keep@[j] == s
                }),
        decreases n - i,
    {
        match &resolved[i] {
            Some(s) => {
                keep.push(s.clone());
            },
            None => {
                return Err(PruneError::PathNotFound(raw[i].clone()));
            },
        }
        i = i + 1;
    }
    Ok(keep)
}

/// Validates that every kept path is a direct child of the target directory,
/// given the directory's complete listing (hidden entries included). The
/// first kept path missing from the listing aborts the run with
/// `NotInTargetDirectory`, before any deletion.
pub fn validate_keep(listing: &Vec<String>, keep: &Vec<String>) -> (r: Result<(), PruneError>)
    requires
        forall|i: int| 0 <= i < keep.deep_view().len() ==> absolute_path(keep.deep_view()[i]),
    ensures
        match r {
            Ok(()) => forall|i: int|
                0 <= i < keep@.len() ==> listing.deep_view().contains(keep.deep_view()[i]),
            Err(e) => {
                &&& e matches PruneError::NotInTargetDirectory(p) && exists|i: int|
                    {
                        &&& 0 <= i < keep@.len()
                        &&& !listing.deep_view().contains(keep.deep_view()[i])
                        &&& p == keep@[i]
                        &&& forall|j: int|
                            0 <= j < i ==> listing.deep_view().contains(keep.deep_view()[j])
                    }
            },
        },
{
    let n = keep.len();
    let mut i: usize = 0;
    while i < n
        invariant
            n == keep@.len(),
            i <= n,
            forall|j: int|
                0 <= j < keep.deep_view().len() ==> absolute_path(keep.deep_view()[j]),
            forall|j: int| 0 <= j < i ==> listing.deep_view().contains(keep.deep_view()[j]),
        decreases n - i,
    {
        proof {
            lemma_path_vec_deep_view(keep);
            assert(absolute_path(keep.deep_view()[i as int]));
            assert(keep.deep_view()[i as int] == keep@[i as int]@);
        }
        if !in_directory(listing, &keep[i]) {
            return Err(PruneError::NotInTargetDirectory(keep[i].clone()));
        }
        i = i + 1;
    }
    Ok(())
}

} // verus!
