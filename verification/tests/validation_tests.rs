use hannahanna::error::HnError;
use hannahanna::validation::{validate_path_within_repo, validate_workspace_name, validate_worktree_name};

#[test]
fn test_validate_worktree_name_valid() {
    assert!(validate_worktree_name("feature-x").is_ok());
    assert!(validate_worktree_name("fix_bug").is_ok());
    assert!(validate_worktree_name("PR123").is_ok());
}

#[test]
fn test_validate_worktree_name_invalid() {
    assert!(validate_worktree_name("").is_err());
    assert!(validate_worktree_name(".").is_err());
    assert!(validate_worktree_name("..").is_err());
    assert!(validate_worktree_name("feature/x").is_err());
    assert!(validate_worktree_name("feature\\x").is_err());
    assert!(validate_worktree_name("-feature").is_err());
    assert!(validate_worktree_name(".hidden").is_err());
}

#[test]
fn worktree_name_errors_say_why() {
    match validate_worktree_name("a\0b") {
        Err(HnError::InvalidWorktreeName(m)) => assert_eq!(m, "Worktree name cannot contain null bytes"),
        other => panic!("unexpected: {:?}", other),
    }
    match validate_worktree_name("..") {
        Err(HnError::InvalidWorktreeName(m)) => assert_eq!(m, "Worktree name cannot be '.' or '..'"),
        other => panic!("unexpected: {:?}", other),
    }
    match validate_worktree_name("-x") {
        Err(HnError::InvalidWorktreeName(m)) => {
            assert_eq!(m, "Worktree name cannot start with '-' (ambiguous with command flags)")
        }
        other => panic!("unexpected: {:?}", other),
    }
}

#[test]
fn workspace_names() {
    assert!(validate_workspace_name("my-setup").is_ok());
    match validate_workspace_name("") {
        Err(HnError::ConfigError(m)) => assert_eq!(m, "Workspace name cannot be empty"),
        other => panic!("unexpected: {:?}", other),
    }
    match validate_workspace_name("a/b") {
        Err(HnError::ConfigError(m)) => assert_eq!(
            m,
            "Invalid workspace name 'a/b'. Workspace names cannot contain path separators or start with '.'"
        ),
        other => panic!("unexpected: {:?}", other),
    }
    match validate_workspace_name(" padded ") {
        Err(HnError::ConfigError(m)) => {
            assert_eq!(m, "Workspace name cannot have leading/trailing whitespace")
        }
        other => panic!("unexpected: {:?}", other),
    }
}

#[test]
fn path_inside_and_outside_repository() {
    assert!(validate_path_within_repo("/repo/sub/file", "/repo").is_ok());
    match validate_path_within_repo("/repository/file", "/repo") {
        Err(HnError::SymlinkError(m)) => assert_eq!(m, "Path is outside repository boundaries"),
        other => panic!("unexpected: {:?}", other),
    }
    assert!(validate_path_within_repo("/other", "/repo").is_err());
}

#[test]
fn test_validate_path_outside_repo() {
    // Two unrelated directories, as canonical paths.
    let repo_root = "/tmp/.tmpA1b2C3";
    let outside_path = "/tmp/.tmpD4e5F6";
    assert!(validate_path_within_repo(outside_path, repo_root).is_err());
}

#[test]
fn test_validate_path_within_repo() {
    assert!(validate_path_within_repo("/tmp/repo/subdir", "/tmp/repo").is_ok());
}
