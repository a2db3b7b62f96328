use hannahanna::commands::SyncStrategy;
use hannahanna::error::HnError;
use hannahanna::merge::{
    autostash_message, check_integrate_flags, check_sync_clean, check_target_clean, find_parent,
    first_index_named, integrate_args, integrate_failure, merge_conflict, rebase_conflict,
    resolve_merge_source, return_merge_args, return_merge_failure, sync_merge_args,
    sync_merge_failure, sync_rebase_failure, sync_source, sync_strategy, MergeSource,
};
use hannahanna::vcs::{WorkspaceStatus, Worktree};

fn wt(name: &str, branch: &str, parent: Option<&str>) -> Worktree {
    Worktree {
        name: name.to_string(),
        path: format!("/work/{}", name),
        branch: branch.to_string(),
        commit: "abc".to_string(),
        parent: parent.map(|p| p.to_string()),
    }
}

fn git_message(e: HnError) -> String {
    match e {
        HnError::Git(m) => m,
        other => panic!("unexpected {:?}", other),
    }
}

#[test]
fn integrate_flags() {
    match check_integrate_flags(true, true) {
        Err(HnError::ConfigError(m)) => assert_eq!(m, "Cannot use both --squash and --no-ff"),
        other => panic!("unexpected {:?}", other),
    }
    assert!(check_integrate_flags(true, false).is_ok());
    assert!(check_integrate_flags(false, true).is_ok());
}

#[test]
fn merge_sources_are_worktrees_or_branches() {
    let ws = vec![wt("main", "main", None), wt("feature-x", "feature/x", Some("main"))];
    match resolve_merge_source("feature-x", &ws).unwrap() {
        MergeSource::FromWorktree { name, branch } => {
            assert_eq!(name, "feature-x");
            assert_eq!(branch, "feature/x");
        }
        other => panic!("unexpected {:?}", other),
    }
    // A prefix of a worktree name matches it.
    assert_eq!(resolve_merge_source("feat", &ws).unwrap().branch(), "feature/x");
    match resolve_merge_source("release/1.0", &ws).unwrap() {
        MergeSource::Branch(b) => assert_eq!(b, "release/1.0"),
        other => panic!("unexpected {:?}", other),
    }
}

#[test]
fn integrate_arguments() {
    assert_eq!(integrate_args(None, false, false, "feat"), vec!["merge", "feat"]);
    assert_eq!(
        integrate_args(Some("ours"), true, false, "feat"),
        vec!["merge", "--strategy", "ours", "--no-ff", "feat"]
    );
    assert_eq!(integrate_args(None, false, true, "feat"), vec!["merge", "--squash", "feat"]);
}

#[test]
fn merge_targets_must_be_clean() {
    let clean = WorkspaceStatus { modified: 0, added: 0, deleted: 0, untracked: 0 };
    assert!(check_target_clean(&clean, "main").is_ok());
    let dirty = WorkspaceStatus { modified: 1, added: 0, deleted: 0, untracked: 0 };
    assert_eq!(
        git_message(check_target_clean(&dirty, "main").unwrap_err()),
        "Target worktree 'main' has uncommitted changes. Commit or stash them first."
    );
}

#[test]
fn merge_failures() {
    assert!(merge_conflict("CONFLICT (content): Merge conflict in a.rs", ""));
    assert!(merge_conflict("", "CONFLICT"));
    assert!(!merge_conflict("Already up to date.", ""));
    assert_eq!(
        git_message(integrate_failure("feat", "main", "", "CONFLICT in x")),
        "Merge conflicts need manual resolution"
    );
    assert_eq!(
        git_message(integrate_failure("feat", "main", "out ", "err")),
        "Failed to merge 'feat' into 'main': out err"
    );
    assert_eq!(git_message(sync_merge_failure("a", "b")), "Failed to merge: ab");
    assert_eq!(git_message(sync_merge_failure("CONFLICT", "")), "Merge conflicts need manual resolution");
    assert!(rebase_conflict("", "error: could not apply 1234"));
    assert_eq!(
        git_message(sync_rebase_failure("", "error: could not apply 1234")),
        "Rebase conflicts need manual resolution"
    );
    assert_eq!(git_message(sync_rebase_failure("x", "y")), "Failed to rebase: xy");
}

#[test]
fn sync_choices() {
    assert_eq!(sync_source(None), "main");
    assert_eq!(sync_source(Some("develop".to_string())), "develop");
    assert_eq!(sync_strategy(None).unwrap(), SyncStrategy::Merge);
    assert_eq!(sync_strategy(Some("REBASE")).unwrap(), SyncStrategy::Rebase);
    match sync_strategy(Some("squash")) {
        Err(HnError::ConfigError(m)) => assert_eq!(m, "Invalid sync strategy 'squash'. Use 'merge' or 'rebase'."),
        other => panic!("unexpected {:?}", other),
    }
    assert_eq!(check_sync_clean(true, false, "wt").unwrap(), false);
    assert_eq!(check_sync_clean(false, true, "wt").unwrap(), true);
    assert_eq!(
        git_message(check_sync_clean(false, false, "wt").unwrap_err()),
        "Worktree 'wt' has uncommitted changes. Use --autostash or commit/stash them first."
    );
    assert_eq!(autostash_message("2024-01-01T00:00:00+00:00"), "hn sync autostash - 2024-01-01T00:00:00+00:00");
    assert_eq!(sync_merge_args(true, "main"), vec!["merge", "--no-commit", "main"]);
    assert_eq!(sync_merge_args(false, "main"), vec!["merge", "main"]);
}

#[test]
fn returning_to_the_parent() {
    let ws = vec![wt("main", "main", None), wt("feat", "feat", Some("main")), wt("orphan", "o", Some("gone"))];
    assert_eq!(find_parent(&ws[1], &ws).unwrap(), 0);
    match find_parent(&ws[0], &ws) {
        Err(HnError::NoParent(n)) => assert_eq!(n, "main"),
        other => panic!("unexpected {:?}", other),
    }
    match find_parent(&ws[2], &ws) {
        Err(HnError::WorktreeNotFound(m)) => {
            assert_eq!(m, "Parent worktree 'gone' not found. It may have been deleted.")
        }
        other => panic!("unexpected {:?}", other),
    }
    assert_eq!(first_index_named(&ws, "feat"), Some(1));
    assert_eq!(first_index_named(&ws, "none"), None);
    assert_eq!(return_merge_args(true, "feat"), vec!["merge", "--no-ff", "feat"]);
    assert_eq!(return_merge_args(false, "feat"), vec!["merge", "feat"]);
    assert_eq!(
        git_message(return_merge_failure("feat", "main", "boom\n")),
        "Failed to merge 'feat' into 'main': boom\n"
    );
}
