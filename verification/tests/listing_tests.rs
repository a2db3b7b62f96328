use hannahanna::listing::{tree_is_finite, tree_view};
use hannahanna::vcs::Worktree;

fn wt(name: &str, parent: Option<&str>, commit: &str) -> Worktree {
    Worktree {
        name: name.to_string(),
        path: format!("/repo/{}", name),
        branch: format!("b-{}", name),
        commit: commit.to_string(),
        parent: parent.map(|p| p.to_string()),
    }
}

#[test]
fn tree_view_draws_children_below_parents() {
    let all = vec![
        wt("main", None, "0123456789"),
        wt("feat", Some("main"), "abc"),
        wt("sub", Some("feat"), "def"),
        wt("fix", Some("main"), "1234567"),
        wt("other", None, "9"),
    ];
    assert!(tree_is_finite(&all));
    assert_eq!(
        tree_view(&all),
        vec![
            "main (b-main) [0123456]".to_string(),
            "├── feat (b-feat) [abc]".to_string(),
            "│   └── sub (b-sub) [def]".to_string(),
            "└── fix (b-fix) [1234567]".to_string(),
            "other (b-other) [9]".to_string(),
        ]
    );
}

#[test]
fn tree_without_roots_is_empty() {
    let all = vec![wt("a", Some("b"), "1"), wt("b", Some("a"), "2")];
    assert!(tree_is_finite(&all));
    assert!(tree_view(&all).is_empty());
}

#[test]
fn a_worktree_under_one_of_its_own_name_never_ends() {
    let all = vec![wt("x", None, "1"), wt("x", Some("x"), "2")];
    assert!(!tree_is_finite(&all));
}
