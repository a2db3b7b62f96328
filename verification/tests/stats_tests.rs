use hannahanna::commands::{integration_installed, SetupShell};
use hannahanna::error::HnError;
use hannahanna::stats::{
    disk_trend, history_days, history_start, named_worktrees, orphaned_state_count, path_tail, recent_start,
    short_commit, shown_in_stats, size_order, truncate, Trend,
};
use hannahanna::vcs::Worktree;

fn wt(name: &str, parent: Option<&str>) -> Worktree {
    Worktree {
        name: name.to_string(),
        path: format!("/repo/{}", name),
        branch: name.to_string(),
        commit: "abc".to_string(),
        parent: parent.map(|p| p.to_string()),
    }
}

#[test]
fn stats_choose_worktrees_by_name() {
    let all = vec![wt("main", None), wt("feat", Some("main")), wt("fix", Some("main"))];
    let named: Vec<&str> = named_worktrees(&all, Some("feat")).iter().map(|w| w.name.as_str()).collect();
    assert_eq!(named, vec!["feat"]);
    assert_eq!(named_worktrees(&all, None).len(), 3);
    assert!(named_worktrees(&all, Some("nope")).is_empty());
    assert!(!shown_in_stats(&all[0], false));
    assert!(shown_in_stats(&all[0], true));
    assert!(shown_in_stats(&all[1], false));
}

#[test]
fn history_window_defaults_to_a_week() {
    assert_eq!(history_days(None), 7);
    assert_eq!(history_days(Some(2)), 2);
    assert_eq!(history_start(1_000_000, 7), 1_000_000 - 7 * 86400);
    assert_eq!(history_start(100, 1), 0);
    assert_eq!(recent_start(12), 7);
    assert_eq!(recent_start(3), 0);
}

#[test]
fn disk_trend_direction_and_amount() {
    assert_eq!(disk_trend(100, 350), Trend::Increased(250));
    assert_eq!(disk_trend(350, 100), Trend::Decreased(250));
    assert_eq!(disk_trend(7, 7), Trend::Stable);
}

#[test]
fn orphaned_state_directories_are_counted_when_counts_differ() {
    assert_eq!(orphaned_state_count(3, 3), None);
    assert_eq!(orphaned_state_count(5, 3), Some(2));
    assert_eq!(orphaned_state_count(2, 3), Some(0));
}

#[test]
fn dashboard_cuts_long_texts() {
    assert_eq!(truncate("short", 20), "short");
    assert_eq!(truncate("feature/a-very-long-branch-name", 20), "feature/a-very-lo...");
    assert_eq!(truncate("abcdef", 2), "...");
    assert_eq!(short_commit("0123456789abcdef"), "0123456");
    assert_eq!(short_commit("abc"), "abc");
    assert_eq!(path_tail("/short/path"), "/short/path");
    let long = "/home/user/projects/repository/worktrees/feature-x";
    assert_eq!(path_tail(long), format!("...{}", &long[long.len() - 27..]));
}

#[test]
fn sizes_are_listed_largest_first_ties_in_order() {
    let sizes = vec![10, 30, 10, 50, 30];
    assert_eq!(size_order(&sizes), vec![3, 1, 4, 0, 2]);
    assert!(size_order(&Vec::new()).is_empty());
}

#[test]
fn setup_shell_names_and_files() {
    assert!(matches!(SetupShell::from_name("zsh"), Ok(SetupShell::Zsh)));
    match SetupShell::from_name("tcsh") {
        Err(HnError::ConfigError(m)) => assert_eq!(m, "Unsupported shell: tcsh. Use bash, zsh, or fish."),
        other => panic!("unexpected: {:?}", other),
    }
    assert_eq!(
        SetupShell::Bash.completion_path(Some("/home/u"), true).unwrap(),
        "/home/u/.local/share/bash-completion/completions/hn"
    );
    assert_eq!(SetupShell::Bash.completion_path(Some("/home/u"), false).unwrap(), "/home/u/.bash_completion.d/hn");
    assert_eq!(SetupShell::Zsh.completion_path(Some("/home/u"), true).unwrap(), "/home/u/.zsh/completions/_hn");
    assert_eq!(
        SetupShell::Fish.completion_path(Some("/home/u"), false).unwrap(),
        "/home/u/.config/fish/completions/hn.fish"
    );
    assert!(SetupShell::Fish.completion_path(None, true).is_err());
    assert!(integration_installed("eval \"$(hn init-shell)\"\n"));
    assert!(integration_installed("# hn switch wrapper\n"));
    assert!(!integration_installed("export PATH=$PATH:~/bin\n"));
}
