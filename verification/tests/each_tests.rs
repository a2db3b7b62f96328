use hannahanna::each::{
    check_each_command, each_banner, each_finish, each_step, execute_error, filter_worktrees,
    keep_marked, separator, step_is_failure, EachStep,
};
use hannahanna::error::HnError;
use hannahanna::vcs::Worktree;

fn wt(name: &str) -> Worktree {
    Worktree {
        name: name.to_string(),
        path: format!("/work/{}", name),
        branch: name.to_string(),
        commit: "abc".to_string(),
        parent: None,
    }
}

fn names(ws: &[Worktree]) -> Vec<String> {
    ws.iter().map(|w| w.name.clone()).collect()
}

#[test]
fn filters_select_worktrees_by_pattern() {
    let all = || vec![wt("main"), wt("feature-x"), wt("feature-y"), wt("fix-1")];
    assert_eq!(names(&filter_worktrees(all(), None).unwrap()), vec!["main", "feature-x", "feature-y", "fix-1"]);
    assert_eq!(names(&filter_worktrees(all(), Some("^feature")).unwrap()), vec!["feature-x", "feature-y"]);
    assert_eq!(names(&filter_worktrees(all(), Some("x")).unwrap()), vec!["feature-x", "fix-1"]);
    assert!(filter_worktrees(all(), Some("^nothing$")).unwrap().is_empty());
    match filter_worktrees(all(), Some("feat(")) {
        Err(HnError::ConfigError(m)) => assert!(m.starts_with("Invalid filter pattern 'feat(': ")),
        other => panic!("unexpected {:?}", other.map(|v| names(&v))),
    }
}

#[test]
fn marked_worktrees_are_kept_in_order() {
    let kept = keep_marked(vec![wt("a"), wt("b"), wt("c")], &vec![true, false, true]);
    assert_eq!(names(&kept), vec!["a", "c"]);
    assert!(keep_marked(Vec::new(), &Vec::new()).is_empty());
}

#[test]
fn each_needs_a_command() {
    match check_each_command(&[]) {
        Err(HnError::ConfigError(m)) => assert_eq!(m, "No command specified. Usage: hn each <command>"),
        other => panic!("unexpected {:?}", other),
    }
    assert!(check_each_command(&["ls".to_string()]).is_ok());
}

#[test]
fn each_steps() {
    assert!(matches!(each_step(true, "wt", Ok(true)), EachStep::Done));
    assert!(matches!(each_step(false, "wt", Ok(false)), EachStep::Failed));
    match each_step(true, "wt", Ok(false)) {
        EachStep::StopAfterFailure(HnError::CommandFailed(m)) => {
            assert_eq!(m, "Command failed in worktree 'wt'")
        }
        other => panic!("unexpected {:?}", other),
    }
    let err = || Err(HnError::CommandFailed("boom".to_string()));
    assert!(matches!(each_step(false, "wt", err()), EachStep::Errored(HnError::CommandFailed(ref m)) if m == "boom"));
    assert!(matches!(each_step(true, "wt", err()), EachStep::StopAfterError(HnError::CommandFailed(ref m)) if m == "boom"));
    assert!(!step_is_failure(&EachStep::Done));
    assert!(step_is_failure(&EachStep::Failed));
}

#[test]
fn each_runs_end() {
    assert_eq!(each_finish(false, false, false).unwrap(), false);
    assert_eq!(each_finish(true, false, true).unwrap(), false);
    assert_eq!(each_finish(false, true, false).unwrap(), true);
    assert_eq!(each_finish(true, true, false).unwrap(), true);
    assert_eq!(each_finish(false, true, true).unwrap(), false);
    match each_finish(true, true, true) {
        Err(HnError::CommandFailed(m)) => assert_eq!(m, "Command failed in one or more worktrees"),
        other => panic!("unexpected {:?}", other),
    }
}

#[test]
fn each_texts() {
    assert_eq!(each_banner(1), "Executing command in 1 worktree...");
    assert_eq!(each_banner(3), "Executing command in 3 worktrees...");
    assert_eq!(separator("feature-x"), "==> feature-x <==");
    let cmd = vec!["cargo".to_string(), "test".to_string()];
    match execute_error(&cmd, "wt", "not found") {
        HnError::CommandFailed(m) => assert_eq!(m, "Failed to execute 'cargo test' in 'wt': not found"),
        other => panic!("unexpected {:?}", other),
    }
}
