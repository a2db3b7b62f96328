use hannahanna::commands::{check_removable, check_return_flags, children_of};
use hannahanna::config::DockerConfig;
use hannahanna::docker::ContainerManager;
use hannahanna::each::filter_pattern_error;
use hannahanna::error::HnError;
use hannahanna::hooks::HookType;
use hannahanna::snapshot::{check_snapshot_name_free, get_snapshot_index_path, Snapshot, SnapshotIndex};
use hannahanna::vcs::{init_backend_with_detection, VcsType, Worktree};

fn wt(name: &str, parent: Option<&str>) -> Worktree {
    Worktree {
        name: name.to_string(),
        path: format!("/repo/{}", name),
        branch: name.to_string(),
        commit: "abc".to_string(),
        parent: parent.map(|p| p.to_string()),
    }
}

fn config_error(r: Result<(), HnError>) -> String {
    match r {
        Err(HnError::ConfigError(m)) => m,
        other => panic!("expected a configuration error, got {:?}", other),
    }
}

#[test]
fn return_flags_need_merge() {
    assert!(check_return_flags(false, false, false).is_ok());
    assert!(check_return_flags(true, true, true).is_ok());
    assert_eq!(
        config_error(check_return_flags(false, true, false)),
        "--delete requires --merge. Use 'hn return --merge --delete'"
    );
    assert_eq!(
        config_error(check_return_flags(false, false, true)),
        "--no-ff requires --merge. Use 'hn return --merge --no-ff'"
    );
}

#[test]
fn children_are_found_by_parent_name() {
    let all = vec![wt("a", None), wt("b", Some("a")), wt("c", Some("b")), wt("d", Some("a"))];
    assert_eq!(children_of(&all, "a"), vec!["b".to_string(), "d".to_string()]);
    assert_eq!(children_of(&all, "b"), vec!["c".to_string()]);
    assert!(children_of(&all, "d").is_empty());
}

#[test]
fn parent_with_children_is_kept_without_force() {
    let children = vec!["b".to_string(), "d".to_string()];
    assert!(check_removable("a", &Vec::new(), false).is_ok());
    assert!(check_removable("a", &children, true).is_ok());
    assert_eq!(
        config_error(check_removable("a", &children, false)),
        "Cannot remove 'a' - it has 2 child worktree(s): b, d\n\nOptions:\n1. Remove children first: hn remove b, hn remove d\n2. Use --force to remove parent and orphan children (children will remain but parent link will be broken)"
    );
}

#[test]
fn bad_filter_pattern_is_a_configuration_error() {
    match filter_pattern_error("[", "unclosed class") {
        HnError::ConfigError(m) => assert_eq!(m, "Invalid filter pattern '[': unclosed class"),
        other => panic!("unexpected: {:?}", other),
    }
}

#[test]
fn hooks_that_run_in_the_parent_directory() {
    assert!(HookType::PreCreate.runs_in_parent());
    assert!(HookType::PostRemove.runs_in_parent());
    assert!(!HookType::PostCreate.runs_in_parent());
    assert!(!HookType::PreRemove.runs_in_parent());
    assert!(!HookType::PostSwitch.runs_in_parent());
}

#[test]
fn snapshot_names_are_unique_per_worktree() {
    let mut index = SnapshotIndex::new();
    index.add(Snapshot {
        name: "s1".to_string(),
        worktree: "feat".to_string(),
        branch: "feat".to_string(),
        commit: "abc".to_string(),
        stash_ref: None,
        has_uncommitted: false,
        created_at: 5,
        description: None,
    });
    assert!(check_snapshot_name_free(&index, "other", "s1").is_ok());
    assert!(check_snapshot_name_free(&index, "feat", "s2").is_ok());
    assert_eq!(
        config_error(check_snapshot_name_free(&index, "feat", "s1")),
        "Snapshot 's1' already exists for worktree 'feat'"
    );
    assert_eq!(get_snapshot_index_path("/state"), "/state/snapshots.json");
}

#[test]
fn docker_override_file_and_command_error() {
    let config = DockerConfig::default();
    let manager = ContainerManager::new(&config, "/state").unwrap();
    assert_eq!(manager.override_file("feat"), "/state/feat/docker-compose.override.yml");
    match manager.command_error("boom") {
        HnError::DockerError(m) => assert_eq!(m, "Command failed: boom"),
        other => panic!("unexpected: {:?}", other),
    }
}

#[test]
fn detection_prefers_jujutsu_then_git_then_mercurial() {
    assert_eq!(init_backend_with_detection(None, true, true, true).unwrap(), VcsType::Jujutsu);
    assert_eq!(init_backend_with_detection(None, false, true, true).unwrap(), VcsType::Git);
    assert_eq!(init_backend_with_detection(None, false, false, true).unwrap(), VcsType::Mercurial);
    assert_eq!(init_backend_with_detection(Some(VcsType::Git), true, false, false).unwrap(), VcsType::Git);
    assert!(matches!(init_backend_with_detection(None, false, false, false), Err(HnError::NotInRepository)));
}

#[test]
fn test_explicit_vcs_type_git() {
    let result = init_backend_with_detection(Some(VcsType::Git), false, true, false);
    assert_eq!(result.unwrap(), VcsType::Git);
}

#[test]
fn test_auto_detect_git() {
    let result = init_backend_with_detection(None, false, true, false);
    assert_eq!(result.unwrap(), VcsType::Git);
}
