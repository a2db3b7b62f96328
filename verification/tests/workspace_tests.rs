use hannahanna::error::HnError;
use hannahanna::vcs::Worktree;
use hannahanna::workspace::{
    check_workspace_delete, check_workspace_exists, check_workspace_new, export_path,
    get_workspaces_dir, new_workspace, restore_actions, restore_counts, restore_result,
    workspace_file, RestoreAction, RestoreCounts,
};

fn wt(name: &str) -> Worktree {
    Worktree {
        name: name.to_string(),
        path: format!("/work/{}", name),
        branch: format!("b-{}", name),
        commit: "abc".to_string(),
        parent: None,
    }
}

fn config_message(r: Result<(), HnError>) -> String {
    match r {
        Err(HnError::ConfigError(m)) => m,
        other => panic!("unexpected {:?}", other),
    }
}

#[test]
fn workspace_files() {
    assert_eq!(get_workspaces_dir("/repo"), "/repo/.hn-workspaces");
    assert_eq!(workspace_file("/repo/.hn-workspaces", "sprint"), "/repo/.hn-workspaces/sprint.json");
    assert_eq!(export_path("sprint", None), "sprint.workspace.json");
    assert_eq!(export_path("sprint", Some("/tmp/x.json")), "/tmp/x.json");
}

#[test]
fn workspace_checks() {
    assert!(check_workspace_new("s", false).is_ok());
    assert_eq!(
        config_message(check_workspace_new("s", true)),
        "Workspace 's' already exists. Delete it first or choose a different name."
    );
    assert!(check_workspace_exists("s", true).is_ok());
    assert_eq!(
        config_message(check_workspace_exists("s", false)),
        "Workspace 's' not found. Run 'hn workspace list' to see available workspaces."
    );
    assert_eq!(config_message(check_workspace_delete("s", false, true)), "Workspace 's' not found");
    assert_eq!(config_message(check_workspace_delete("s", true, false)), "Use --force to confirm deletion");
    assert!(check_workspace_delete("s", true, true).is_ok());
}

#[test]
fn saving_keeps_linked_worktrees() {
    let ws = vec![wt("main"), wt("feature-x"), wt("feature-y")];
    let saved = new_workspace("sprint", Some("the sprint"), &ws, &vec![false, true, true], None, 1700000000);
    assert_eq!(saved.name, "sprint");
    assert_eq!(saved.description.as_deref(), Some("the sprint"));
    assert_eq!(saved.created_at, "1700000000");
    let names: Vec<&str> = saved.worktrees.iter().map(|w| w.name.as_str()).collect();
    assert_eq!(names, vec!["feature-x", "feature-y"]);
    assert_eq!(saved.worktrees[0].branch, "b-feature-x");
    assert_eq!(saved.worktrees[1].path, "/work/feature-y");
    assert!(saved.config_snapshot.is_none());
}

#[test]
fn restoring_skips_existing_unless_forced() {
    let ws = vec![wt("a"), wt("b"), wt("c")];
    let saved = new_workspace("s", None, &ws, &vec![true, true, true], Some("cfg".to_string()), 0);
    let existing = vec!["b".to_string()];
    assert_eq!(
        restore_actions(&saved, &existing, false),
        vec![RestoreAction::Create, RestoreAction::Skip, RestoreAction::Create]
    );
    assert_eq!(
        restore_actions(&saved, &existing, true),
        vec![RestoreAction::Create, RestoreAction::Overwrite, RestoreAction::Create]
    );
    let actions = restore_actions(&saved, &existing, false);
    let counts = restore_counts(&actions, &vec![true, false, false]);
    assert_eq!(counts, RestoreCounts { restored: 1, skipped: 1, failed: 1 });
    assert_eq!(config_message(restore_result(&counts)), "Failed to restore 1 worktree(s)");
    let ok = restore_counts(&actions, &vec![true, true, true]);
    assert_eq!(ok, RestoreCounts { restored: 2, skipped: 1, failed: 0 });
    assert!(restore_result(&ok).is_ok());
}
