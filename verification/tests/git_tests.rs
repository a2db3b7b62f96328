use hannahanna::error::HnError;
use hannahanna::git::{
    check_sparse_checkout_support, check_worktree_removable, git_error, new_worktree_path,
    parent_from_config, parent_of_new_worktree, parse_git_version, parse_u32,
    retry_with_existing_branch, signed_decimal, split_on, split_words, worktree_add_args,
    worktree_remove_args,
};
use hannahanna::vcs::Worktree;

fn chars(s: &str) -> Vec<char> {
    s.chars().collect()
}

#[test]
fn git_versions_are_read() {
    assert_eq!(parse_git_version("git version 2.34.1"), Some((2, 34, 1)));
    assert_eq!(parse_git_version("git version 2.39.2 (Apple Git-143)\n"), Some((2, 39, 2)));
    assert_eq!(parse_git_version("git version 2.25"), Some((2, 25, 0)));
    assert_eq!(parse_git_version("git version 2.30.x"), Some((2, 30, 0)));
    assert_eq!(parse_git_version("  git   version\t1.8.5  "), Some((1, 8, 5)));
    assert_eq!(parse_git_version("git version 2"), None);
    assert_eq!(parse_git_version("git version"), None);
    assert_eq!(parse_git_version("git version x.1.2"), None);
    assert_eq!(parse_git_version(""), None);
}

#[test]
fn numbers_are_read_as_str_parse_does() {
    assert_eq!(parse_u32(&chars("0")), Some(0));
    assert_eq!(parse_u32(&chars("+17")), Some(17));
    assert_eq!(parse_u32(&chars("4294967295")), Some(u32::MAX));
    assert_eq!(parse_u32(&chars("4294967296")), None);
    assert_eq!(parse_u32(&chars("99999999999999999999")), None);
    assert_eq!(parse_u32(&chars("")), None);
    assert_eq!(parse_u32(&chars("+")), None);
    assert_eq!(parse_u32(&chars("-1")), None);
    assert_eq!(parse_u32(&chars("1a")), None);
    assert_eq!(parse_u32(&chars(" 1")), None);
}

#[test]
fn words_and_pieces() {
    let w: Vec<String> = split_words(" a  bc\td \n").iter().map(|v| v.iter().collect()).collect();
    assert_eq!(w, vec!["a", "bc", "d"]);
    assert!(split_words("   ").is_empty());
    let p: Vec<String> = split_on(&chars("1..2."), '.').iter().map(|v| v.iter().collect()).collect();
    assert_eq!(p, vec!["1", "", "2", ""]);
    let one: Vec<String> = split_on(&chars(""), '.').iter().map(|v| v.iter().collect()).collect();
    assert_eq!(one, vec![""]);
}

#[test]
fn sparse_checkout_needs_git_2_25() {
    match check_sparse_checkout_support("git version 2.24.9\n") {
        Err(HnError::Git(m)) => {
            assert_eq!(m, "Sparse checkout requires Git >= 2.25.0 (found git version 2.24.9)")
        }
        other => panic!("unexpected {:?}", other),
    }
    assert!(check_sparse_checkout_support("git version 1.9.0").is_err());
    assert!(check_sparse_checkout_support("git version 2.25.0").is_ok());
    assert!(check_sparse_checkout_support("git version 3.0").is_ok());
    assert!(check_sparse_checkout_support("unexpected output").is_ok());
}

#[test]
fn git_errors_use_the_most_useful_output() {
    let e = git_error("Failed to add", "  fatal: bad  \n", "ignored", Some(128));
    assert!(matches!(e, HnError::Git(ref m) if m == "Failed to add: fatal: bad"));
    let e = git_error("Failed to add", "", " out\n", Some(1));
    assert!(matches!(e, HnError::Git(ref m) if m == "Failed to add: out"));
    let e = git_error("Failed to add", "", "", Some(3));
    assert!(matches!(e, HnError::Git(ref m) if m == "Failed to add (exit code: 3)"));
    let e = git_error("Failed to add", "", "", None);
    assert!(matches!(e, HnError::Git(ref m) if m == "Failed to add (exit code: -1)"));
}

#[test]
fn signed_numbers() {
    assert_eq!(signed_decimal(0), "0");
    assert_eq!(signed_decimal(42), "42");
    assert_eq!(signed_decimal(-7), "-7");
    assert_eq!(signed_decimal(i32::MIN), "-2147483648");
}

#[test]
fn adding_and_removing_worktrees() {
    assert_eq!(new_worktree_path("/src/repo", "feat").unwrap(), "/src/feat");
    assert!(matches!(new_worktree_path("/", "feat"), Err(HnError::Git(ref m)) if m == "Could not determine worktree parent directory"));
    assert_eq!(worktree_add_args("/src/feat", "feat", None, false), vec!["worktree", "add", "-b", "feat", "/src/feat"]);
    assert_eq!(
        worktree_add_args("/src/feat", "feat", Some("main"), false),
        vec!["worktree", "add", "-b", "feat", "/src/feat", "main"]
    );
    assert_eq!(worktree_add_args("/src/feat", "feat", Some("main"), true), vec!["worktree", "add", "/src/feat", "feat"]);
    assert!(retry_with_existing_branch(false, "fatal: a branch named 'feat' already exists"));
    assert!(!retry_with_existing_branch(true, "fatal: a branch named 'feat' already exists"));
    assert!(!retry_with_existing_branch(false, "fatal: invalid reference"));
    assert!(check_worktree_removable("feat", false, true).is_ok());
    assert!(check_worktree_removable("feat", true, false).is_ok());
    assert!(matches!(
        check_worktree_removable("feat", false, false),
        Err(HnError::Git(ref m)) if m == "Worktree 'feat' has uncommitted changes. Use --force to remove anyway."
    ));
    assert_eq!(worktree_remove_args(true, "/src/feat"), vec!["worktree", "remove", "--force", "/src/feat"]);
    assert_eq!(worktree_remove_args(false, "/src/feat"), vec!["worktree", "remove", "/src/feat"]);
}

#[test]
fn parents_of_worktrees() {
    assert_eq!(parent_from_config(true, " main\n"), Some("main".to_string()));
    assert_eq!(parent_from_config(true, "\n"), None);
    assert_eq!(parent_from_config(false, "main"), None);
    let current = Worktree {
        name: "feature-a".to_string(),
        path: "/src/feature-a".to_string(),
        branch: "feature-a".to_string(),
        commit: "abc".to_string(),
        parent: None,
    };
    assert_eq!(parent_of_new_worktree(Some(&current), false), Some("feature-a".to_string()));
    assert_eq!(parent_of_new_worktree(Some(&current), true), None);
    assert_eq!(parent_of_new_worktree(None, false), None);
}
