use rm_except::paths::is_absolute;
use rm_except::paths::is_hidden;
use rm_except::plan::filter_hidden;
use rm_except::plan::plan_run;
use rm_except::plan::rm_except;
use rm_except::plan::Action;
use rm_except::plan::Entry;
use rm_except::plan::EntryKind;
use rm_except::resolve::contains_path;
use rm_except::resolve::in_directory;
use rm_except::resolve::resolve_keep;
use rm_except::resolve::validate_keep;
use rm_except::resolve::PruneError;

fn entry(path: &str, kind: EntryKind) -> Entry {
    Entry { path: path.to_string(), kind }
}

fn paths(v: &[&str]) -> Vec<String> {
    v.iter().map(|s| s.to_string()).collect()
}

/// The child set that is left once every removal of the plan has been
/// carried out.
fn apply_plan(entries: &[Entry], plan: &[Action]) -> Vec<Entry> {
    entries
        .iter()
        .filter(|e| {
            !plan.iter().any(|a| match a {
                Action::DeleteFile(p) => *p == e.path,
                Action::DeleteDir(p) => *p == e.path,
                _ => false,
            })
        })
        .map(|e| Entry { path: e.path.clone(), kind: e.kind })
        .collect()
}

fn removal_paths(plan: &[Action]) -> Vec<String> {
    plan.iter()
        .filter_map(|a| match a {
            Action::DeleteFile(p) => Some(p.clone()),
            Action::DeleteDir(p) => Some(p.clone()),
            _ => None,
        })
        .collect()
}

#[test]
fn absolute_paths_recognised() {
    assert!(is_absolute("/work/a.txt"));
    assert!(is_absolute("/"));
    assert!(!is_absolute("a.txt"));
    assert!(!is_absolute(""));
    assert!(!is_absolute("work/a.txt"));
}

#[test]
fn hidden_names_recognised() {
    assert!(is_hidden("/work/.hidden"));
    assert!(is_hidden("/work/.config"));
    assert!(is_hidden(".bashrc"));
    assert!(!is_hidden("/work/a.txt"));
    assert!(!is_hidden("/work/sub"));
    assert!(!is_hidden("/work/a.b.c"));
    assert!(!is_hidden("/work/"));
    assert!(!is_hidden(""));
    assert!(!is_hidden("/work/.d/"));
}

#[test]
fn membership_by_canonical_path() {
    let listing = paths(&["/work/a.txt", "/work/.hidden", "/work/sub"]);
    assert!(contains_path(&listing, &"/work/a.txt".to_string()));
    assert!(contains_path(&listing, &"/work/.hidden".to_string()));
    assert!(!contains_path(&listing, &"/work/b.txt".to_string()));
    assert!(in_directory(&listing, &"/work/sub".to_string()));
    assert!(!in_directory(&listing, &"/other/sub".to_string()));
}

#[test]
fn resolve_keep_builds_canonical_set() {
    let raw = paths(&["a.txt", "sub"]);
    let resolved = vec![
        Some("/work/a.txt".to_string()),
        Some("/work/sub".to_string()),
    ];
    let keep = resolve_keep(&raw, &resolved).unwrap();
    assert_eq!(keep, paths(&["/work/a.txt", "/work/sub"]));
}

#[test]
fn resolve_keep_missing_path_aborts() {
    // Scenario: a keep path that does not exist cannot be resolved; the run
    // aborts with PathNotFound naming the path as the caller wrote it.
    let raw = paths(&["a.txt", "missing.txt", "b.txt"]);
    let resolved = vec![Some("/work/a.txt".to_string()), None, None];
    match resolve_keep(&raw, &resolved) {
        Err(PruneError::PathNotFound(p)) => assert_eq!(p, "missing.txt"),
        other => panic!("expected PathNotFound, got {:?}", other),
    }
}

#[test]
fn validate_keep_accepts_direct_children() {
    let listing = paths(&["/work/a.txt", "/work/.hidden", "/work/sub"]);
    let keep = paths(&["/work/a.txt", "/work/.hidden"]);
    assert!(validate_keep(&listing, &keep).is_ok());
}

#[test]
fn validate_keep_rejects_outside_path() {
    // Scenario: a keep path resolving outside the target directory aborts
    // the run with NotInTargetDirectory.
    let listing = paths(&["/work/a.txt", "/work/b.txt"]);
    let keep = paths(&["/work/a.txt", "/outside.txt"]);
    match validate_keep(&listing, &keep) {
        Err(PruneError::NotInTargetDirectory(p)) => assert_eq!(p, "/outside.txt"),
        other => panic!("expected NotInTargetDirectory, got {:?}", other),
    }
}

#[test]
fn validate_keep_rejects_deeper_descendant() {
    let listing = paths(&["/work/sub", "/work/a.txt"]);
    let keep = paths(&["/work/sub/inner.txt"]);
    match validate_keep(&listing, &keep) {
        Err(PruneError::NotInTargetDirectory(p)) => assert_eq!(p, "/work/sub/inner.txt"),
        other => panic!("expected NotInTargetDirectory, got {:?}", other),
    }
}

#[test]
fn scenario_keep_one_file() {
    // a.txt, b.txt and .hidden; keep a.txt. A non-dry run deletes exactly
    // b.txt; a.txt and .hidden remain.
    let entries = vec![
        entry("/work/a.txt", EntryKind::File),
        entry("/work/b.txt", EntryKind::File),
        entry("/work/.hidden", EntryKind::File),
    ];
    let keep = paths(&["/work/a.txt"]);
    let plan = rm_except(&entries, &keep, false, false);
    assert_eq!(plan, vec![Action::DeleteFile("/work/b.txt".to_string())]);
    let left = apply_plan(&entries, &plan);
    assert_eq!(
        left,
        vec![
            entry("/work/a.txt", EntryKind::File),
            entry("/work/.hidden", EntryKind::File),
        ]
    );
}

#[test]
fn scenario_subdirectory_removed_recursively() {
    // A subdirectory that is not kept is removed as a whole tree: the plan
    // schedules a recursive directory removal for it.
    let entries = vec![entry("/work/sub", EntryKind::Directory)];
    let keep: Vec<String> = vec![];
    let plan = rm_except(&entries, &keep, false, false);
    assert_eq!(plan, vec![Action::DeleteDir("/work/sub".to_string())]);
}

#[test]
fn scenario_verbose_dry_run() {
    // Verbose and dry together: the plan announces every entry that would
    // be deleted and removes none of them.
    let entries = vec![
        entry("/work/a.txt", EntryKind::File),
        entry("/work/b.txt", EntryKind::File),
        entry("/work/sub", EntryKind::Directory),
        entry("/work/.hidden", EntryKind::File),
    ];
    let keep = paths(&["/work/a.txt"]);
    let plan = rm_except(&entries, &keep, true, true);
    assert_eq!(
        plan,
        vec![
            Action::Announce("/work/b.txt".to_string()),
            Action::Announce("/work/sub".to_string()),
        ]
    );
    let left = apply_plan(&entries, &plan);
    assert_eq!(left, entries);
}

#[test]
fn verbose_non_dry_announces_then_removes() {
    let entries = vec![entry("/work/b.txt", EntryKind::File)];
    let keep: Vec<String> = vec![];
    let plan = rm_except(&entries, &keep, true, false);
    assert_eq!(
        plan,
        vec![
            Action::Announce("/work/b.txt".to_string()),
            Action::DeleteFile("/work/b.txt".to_string()),
        ]
    );
}

#[test]
fn kept_paths_always_survive() {
    // Every path in keep still exists after the run, whatever the flags.
    let entries = vec![
        entry("/work/a.txt", EntryKind::File),
        entry("/work/b.txt", EntryKind::File),
        entry("/work/sub", EntryKind::Directory),
    ];
    let keep = paths(&["/work/a.txt", "/work/sub"]);
    for verbose in [false, true] {
        for dry in [false, true] {
            let plan = rm_except(&entries, &keep, verbose, dry);
            for p in removal_paths(&plan) {
                assert!(!keep.contains(&p));
            }
            let left = apply_plan(&entries, &plan);
            assert!(left.iter().any(|e| e.path == "/work/a.txt"));
            assert!(left.iter().any(|e| e.path == "/work/sub"));
        }
    }
}

#[test]
fn unkept_visible_children_all_removed() {
    // After a non-dry run, no direct child outside keep and not hidden is
    // left.
    let entries = vec![
        entry("/work/a.txt", EntryKind::File),
        entry("/work/b.txt", EntryKind::File),
        entry("/work/c.log", EntryKind::File),
        entry("/work/sub", EntryKind::Directory),
        entry("/work/.keeped", EntryKind::File),
    ];
    let keep = paths(&["/work/a.txt"]);
    let plan = rm_except(&entries, &keep, false, false);
    let left = apply_plan(&entries, &plan);
    for e in &left {
        assert!(keep.contains(&e.path) || is_hidden(&e.path));
    }
    assert_eq!(left.len(), 2);
}

#[test]
fn hidden_entries_never_removed() {
    // Hidden entries survive regardless of the keep set, even an empty one.
    let entries = vec![
        entry("/work/.hidden", EntryKind::File),
        entry("/work/.git", EntryKind::Directory),
        entry("/work/a.txt", EntryKind::File),
    ];
    let keep: Vec<String> = vec![];
    let plan = rm_except(&entries, &keep, false, false);
    let removed = removal_paths(&plan);
    assert_eq!(removed, vec!["/work/a.txt".to_string()]);
    for p in &removed {
        assert!(!is_hidden(p));
    }
}

#[test]
fn pruning_twice_equals_pruning_once() {
    // Idempotence: a second run with the same keep set changes nothing.
    let entries = vec![
        entry("/work/a.txt", EntryKind::File),
        entry("/work/b.txt", EntryKind::File),
        entry("/work/.hidden", EntryKind::File),
        entry("/work/sub", EntryKind::Directory),
    ];
    let keep = paths(&["/work/a.txt"]);
    let once = apply_plan(&entries, &rm_except(&entries, &keep, false, false));
    let again = rm_except(&once, &keep, false, false);
    assert!(removal_paths(&again).is_empty());
    let twice = apply_plan(&once, &again);
    assert_eq!(twice, once);
}

#[test]
fn dry_run_changes_nothing() {
    // Dry-run non-mutation: the child set is identical before and after.
    let entries = vec![
        entry("/work/a.txt", EntryKind::File),
        entry("/work/b.txt", EntryKind::File),
        entry("/work/sub", EntryKind::Directory),
    ];
    let keep: Vec<String> = vec![];
    for verbose in [false, true] {
        let plan = rm_except(&entries, &keep, verbose, true);
        assert!(removal_paths(&plan).is_empty());
        assert_eq!(apply_plan(&entries, &plan), entries);
    }
}

#[test]
fn unsupported_entry_reported_not_deleted() {
    // An entry that is neither file nor directory is reported and skipped;
    // the other entries are still pruned.
    let entries = vec![
        entry("/work/socket", EntryKind::Other),
        entry("/work/b.txt", EntryKind::File),
    ];
    let keep: Vec<String> = vec![];
    let plan = rm_except(&entries, &keep, false, false);
    assert_eq!(
        plan,
        vec![
            Action::ReportUnsupported("/work/socket".to_string()),
            Action::DeleteFile("/work/b.txt".to_string()),
        ]
    );
    let left = apply_plan(&entries, &plan);
    assert_eq!(left, vec![entry("/work/socket", EntryKind::Other)]);
}

#[test]
fn filter_hidden_drops_dot_entries() {
    let entries = vec![
        entry("/work/.hidden", EntryKind::File),
        entry("/work/a.txt", EntryKind::File),
        entry("/work/.git", EntryKind::Directory),
        entry("/work/sub", EntryKind::Directory),
    ];
    let visible = filter_hidden(&entries);
    assert_eq!(
        visible,
        vec![
            entry("/work/a.txt", EntryKind::File),
            entry("/work/sub", EntryKind::Directory),
        ]
    );
}

#[test]
fn plan_run_validates_then_plans() {
    let entries = vec![
        entry("/work/a.txt", EntryKind::File),
        entry("/work/b.txt", EntryKind::File),
        entry("/work/.hidden", EntryKind::File),
    ];
    let keep = paths(&["/work/a.txt", "/work/.hidden"]);
    let plan = plan_run(&entries, &keep, false, false).unwrap();
    assert_eq!(plan, vec![Action::DeleteFile("/work/b.txt".to_string())]);
}

#[test]
fn plan_run_aborts_before_planning() {
    // A keep path outside the directory aborts the whole run: no step is
    // planned, so the directory is untouched.
    let entries = vec![
        entry("/work/a.txt", EntryKind::File),
        entry("/work/b.txt", EntryKind::File),
    ];
    let keep = paths(&["/elsewhere/outside.txt"]);
    match plan_run(&entries, &keep, false, false) {
        Err(PruneError::NotInTargetDirectory(p)) => assert_eq!(p, "/elsewhere/outside.txt"),
        other => panic!("expected NotInTargetDirectory, got {:?}", other),
    }
}

#[test]
fn plan_run_validates_hidden_keeps_too() {
    // The membership check runs over the unfiltered listing, so a hidden
    // keep entry validates even though pruning itself skips hidden names.
    let entries = vec![entry("/work/.hidden", EntryKind::File)];
    let keep = paths(&["/work/.hidden"]);
    let plan = plan_run(&entries, &keep, false, false).unwrap();
    assert!(plan.is_empty());
}

#[test]
fn unreadable_directory_error_names_the_directory() {
    let e = PruneError::DirectoryUnreadable("/work".to_string());
    match e {
        PruneError::DirectoryUnreadable(p) => assert_eq!(p, "/work"),
        other => panic!("unexpected {:?}", other),
    }
}
