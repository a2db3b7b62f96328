use hannahanna::error::HnError;
use hannahanna::suggestions::{ambiguity_list, suggestions_for, Segment};

fn render(error: &HnError) -> Vec<String> {
    suggestions_for(error)
        .iter()
        .map(|line| {
            line.iter()
                .map(|s| match s {
                    Segment::Plain(t) => t.clone(),
                    Segment::Code(t) => format!("[{}]", t),
                })
                .collect()
        })
        .collect()
}

#[test]
fn existing_and_missing_worktrees() {
    assert_eq!(
        render(&HnError::WorktreeAlreadyExists("feature-x".to_string())),
        vec![
            "Remove existing: [hn remove feature-x]",
            "Use different name: [hn add feature-x-v2]",
            "Switch to existing: [hn switch feature-x]",
        ]
    );
    assert_eq!(
        render(&HnError::WorktreeNotFound("wt".to_string())),
        vec!["List all worktrees: [hn list]", "Check the worktree name for typos", "Create new worktree: [hn add wt]"]
    );
}

#[test]
fn advice_depends_on_the_message() {
    assert_eq!(
        render(&HnError::Git("Target worktree 'a' has uncommitted changes. Commit or stash them first.".to_string())),
        vec![
            "Commit your changes: [git commit -am \"message\"]",
            "Stash your changes: [git stash]",
            "Force remove (discards changes): [hn remove <name> --force]",
        ]
    );
    assert_eq!(render(&HnError::Git("branch already exists".to_string())).len(), 3);
    assert_eq!(render(&HnError::Git("merge hit a conflict".to_string()))[2], "Abort merge: [git merge --abort]");
    assert!(render(&HnError::Git("something else".to_string())).is_empty());
    assert_eq!(render(&HnError::PortAllocationError("Port exhausted for service 'app'".to_string())).len(), 3);
    assert_eq!(
        render(&HnError::PortAllocationError("No ports allocated for 'x'".to_string())),
        vec!["Check port allocations: [hn ports list]", "Release ports: [hn ports release <name>]"]
    );
    assert_eq!(
        render(&HnError::DockerError("docker: command not found".to_string())),
        vec![
            "Check if Docker is running",
            "Install Docker: https://docs.docker.com/get-docker/",
            "View Docker logs: [hn docker logs <name>]",
        ]
    );
    assert_eq!(render(&HnError::DockerError("permission denied".to_string())).len(), 4);
    assert_eq!(render(&HnError::DockerError("timeout".to_string())).len(), 2);
    assert_eq!(render(&HnError::HookError("failed with exit code 2".to_string())).len(), 3);
    assert_eq!(render(&HnError::HookError("timed out".to_string())).len(), 2);
    assert_eq!(render(&HnError::InvalidWorktreeName("contains path separator".to_string())).len(), 3);
    assert_eq!(
        render(&HnError::InvalidWorktreeName("empty".to_string()))[1],
        "Example valid names: [feature-x], [fix_bug_123], [hotfix-2024]"
    );
}

#[test]
fn other_kinds() {
    assert_eq!(render(&HnError::NotInRepository)[1], "Check if [.git] directory exists");
    assert_eq!(render(&HnError::NoParent("wt".to_string()))[1], "Use [hn switch <name>] to switch to a specific worktree");
    assert_eq!(render(&HnError::ConfigError("bad".to_string()))[0], "Check [.hannahanna.yml] for syntax errors");
    assert_eq!(render(&HnError::AmbiguousWorktreeName("f".to_string(), vec!["fa".to_string(), "fb".to_string()])).len(), 2);
    assert!(render(&HnError::Io("disk".to_string())).is_empty());
    assert!(render(&HnError::CommandFailed("x".to_string())).is_empty());
}

#[test]
fn ambiguous_names_are_listed_numbered() {
    let e = HnError::AmbiguousWorktreeName("feat".to_string(), vec!["feature-a".to_string(), "feature-b".to_string()]);
    let (query, lines) = ambiguity_list(&e).unwrap();
    assert_eq!(query, "feat");
    assert_eq!(lines.len(), 2);
    assert!(matches!(&lines[1][0], Segment::Plain(t) if t == "2. "));
    assert!(matches!(&lines[1][1], Segment::Code(t) if t == "feature-b"));
    assert!(ambiguity_list(&HnError::NotInRepository).is_none());
}
