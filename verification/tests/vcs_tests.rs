use hannahanna::error::HnError;
use hannahanna::vcs::{
    detect_vcs_type, parse_git_status, parse_hg_status, parse_jj_status, parse_worktree_list,
    resolve_vcs_type, short_commit, workspace_containing, JujutsuBackend, VcsType, WorkspaceStatus,
    Worktree,
};

#[test]
fn test_parse_workspace_list() {
    let backend = JujutsuBackend { repo_path: "/test".to_string() };
    let output = "default: /home/user/repo\nfeature-x: /home/user/feature-x\n";
    let workspaces = backend.parse_workspace_list(output);
    assert_eq!(workspaces.len(), 2);
    assert_eq!(workspaces[0].0, "default");
    assert_eq!(workspaces[0].1, "/home/user/repo");
    assert_eq!(workspaces[1].0, "feature-x");
    assert_eq!(workspaces[1].1, "/home/user/feature-x");
}

#[test]
fn short_commits() {
    assert_eq!(short_commit("0123456789abcdef"), "0123456");
    assert_eq!(short_commit("abc"), "abc");
}

#[test]
fn vcs_names() {
    assert_eq!(VcsType::parse_vcs("GIT"), Some(VcsType::Git));
    assert_eq!(VcsType::parse_vcs("hg"), Some(VcsType::Mercurial));
    assert_eq!(VcsType::parse_vcs("Jujutsu"), Some(VcsType::Jujutsu));
    assert_eq!(VcsType::parse_vcs("svn"), None);
    assert_eq!(VcsType::Mercurial.as_str(), "mercurial");
    assert_eq!(VcsType::from_str("svn"), Err("Invalid VCS type: svn".to_string()));
}

#[test]
fn vcs_detection_order() {
    assert_eq!(detect_vcs_type(true, true, true), Some(VcsType::Jujutsu));
    assert_eq!(detect_vcs_type(false, true, true), Some(VcsType::Git));
    assert_eq!(detect_vcs_type(false, false, true), Some(VcsType::Mercurial));
    assert_eq!(detect_vcs_type(false, false, false), None);
    assert!(matches!(resolve_vcs_type(None, None), Err(HnError::NotInRepository)));
    assert_eq!(resolve_vcs_type(Some(VcsType::Git), Some(VcsType::Jujutsu)).unwrap(), VcsType::Git);
}

#[test]
fn git_status_counts() {
    let s = parse_git_status(" M a.rs\nA  b.rs\n D c.rs\n?? d.rs\nM  e.rs\n");
    assert_eq!((s.modified, s.added, s.deleted, s.untracked), (2, 1, 1, 1));
    assert!(!s.is_clean());
    assert!(parse_git_status("").is_clean());
}

#[test]
fn hg_and_jj_status_counts() {
    let h = parse_hg_status("M a\nA b\nR c\n! d\n? e\n");
    assert_eq!(h.modified, 1);
    assert_eq!(h.untracked, 1);
    let j = parse_jj_status("Working copy changes:\nM a\nA b\nD c\n");
    assert_eq!((j.modified, j.added, j.deleted), (1, 1, 1));
    let clean = WorkspaceStatus { modified: 0, added: 0, deleted: 0, untracked: 0 };
    assert!(clean.is_clean());
}

#[test]
fn porcelain_worktree_list() {
    let out = "worktree /repo\nHEAD 1111111\nbranch refs/heads/main\n\nworktree /wt/feature\nHEAD 2222222\nbranch refs/heads/feature\n";
    let wts = parse_worktree_list(out);
    assert_eq!(wts.len(), 2);
    assert_eq!(wts[0].path, "/repo");
    assert_eq!(wts[0].name, "repo");
    assert_eq!(wts[0].branch, "main");
    assert_eq!(wts[1].name, "feature");
    assert_eq!(wts[1].commit, "2222222");
}

#[test]
fn test_detect_no_vcs() {
    // An empty directory: no `.jj`, `.git` or `.hg` in it.
    let result = resolve_vcs_type(None, detect_vcs_type(false, false, false));
    assert!(result.is_err());
    if let Err(err) = result {
        assert!(err.message().contains("Not in a"));
    }
}

#[test]
fn change_summaries_list_nonzero_counts() {
    let s = WorkspaceStatus { modified: 2, added: 0, deleted: 1, untracked: 3 };
    assert_eq!(s.change_summary(), "2 modified, 1 deleted, 3 untracked");
    let clean = WorkspaceStatus { modified: 0, added: 0, deleted: 0, untracked: 0 };
    assert_eq!(clean.change_summary(), "");
    let one = WorkspaceStatus { modified: 0, added: 4, deleted: 0, untracked: 0 };
    assert_eq!(one.change_summary(), "4 added");
}

#[test]
fn jujutsu_workspace_details() {
    let jj = JujutsuBackend { repo_path: "/src/repo".to_string() };
    assert_eq!(jj.workspace_path("ws").unwrap(), "/src/ws");
    assert_eq!(JujutsuBackend::branch_from_output(true, " main \n"), "main");
    assert_eq!(JujutsuBackend::branch_from_output(true, "  \n"), "(no branch)");
    assert_eq!(JujutsuBackend::branch_from_output(false, "main"), "(no branch)");
    assert_eq!(JujutsuBackend::change_from_output(true, "qpvuntsm\n"), "qpvuntsm");
    assert_eq!(JujutsuBackend::change_from_output(false, "x"), "unknown");
    let ws = vec![
        Worktree { name: "default".into(), path: "/src/repo".into(), branch: "b".into(), commit: "c".into(), parent: None },
        Worktree { name: "ws".into(), path: "/src/ws".into(), branch: "b".into(), commit: "c".into(), parent: None },
    ];
    assert_eq!(workspace_containing(&ws, "/src/ws/sub/dir").unwrap(), 1);
    assert_eq!(workspace_containing(&ws, "/src/repo").unwrap(), 0);
    assert!(matches!(workspace_containing(&ws, "/elsewhere"), Err(HnError::NotInRepository)));
    // Path prefixes go by whole components.
    assert!(workspace_containing(&ws, "/src/wsx").is_err());
}

#[test]
fn vcs_names_parse_back() {
    for v in [VcsType::Git, VcsType::Mercurial, VcsType::Jujutsu] {
        assert_eq!(VcsType::parse_vcs(v.as_str()), Some(v));
        assert_eq!(VcsType::from_str(v.as_str()).unwrap(), v);
    }
    assert_eq!(VcsType::parse_vcs("HG"), Some(VcsType::Mercurial));
}
