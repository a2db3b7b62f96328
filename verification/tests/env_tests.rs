use hannahanna::config::{CopyResource, SharedResource};
use hannahanna::env::{CompatibilityChecker, CopyAction, CopyManager, CopyStep, LinkEnd, SymlinkAction, SymlinkManager, SymlinkStep};
use hannahanna::error::HnError;
use hannahanna::validation::validate_path_within_repo;

#[test]
fn identical_lockfiles_are_compatible() {
    let a = b"dependencies: foo@1.0.0".to_vec();
    let b = b"dependencies: foo@1.0.0".to_vec();
    assert!(CompatibilityChecker::is_compatible(Some(&a), Some(&b)).unwrap());
    assert!(CompatibilityChecker::is_compatible_fast(Some(&a), Some(&b)).unwrap());
}

#[test]
fn different_lockfiles_are_not() {
    let a = b"dependencies: foo@1.0.0".to_vec();
    let b = b"dependencies: foo@2.0.0".to_vec();
    assert!(!CompatibilityChecker::is_compatible(Some(&a), Some(&b)).unwrap());
    assert!(!CompatibilityChecker::is_compatible_fast(Some(&a), Some(&b)).unwrap());
}

#[test]
fn missing_lockfiles_are_not() {
    let a = b"x".to_vec();
    assert!(!CompatibilityChecker::is_compatible(Some(&a), None).unwrap());
    assert!(!CompatibilityChecker::is_compatible(None, None).unwrap());
    assert!(!CompatibilityChecker::is_compatible_fast(None, Some(&a)).unwrap());
}

#[test]
fn large_lockfiles_compare_by_sample_then_hash() {
    let a = vec![7u8; 4096];
    let mut b = a.clone();
    assert!(CompatibilityChecker::is_compatible_fast(Some(&a), Some(&b)).unwrap());
    b[10] = 8;
    assert!(!CompatibilityChecker::is_compatible_fast(Some(&a), Some(&b)).unwrap());
    let mut c = a.clone();
    c[4000] = 9;
    assert!(!CompatibilityChecker::is_compatible_fast(Some(&a), Some(&c)).unwrap());
    let short = vec![7u8; 100];
    assert!(!CompatibilityChecker::is_compatible_fast(Some(&a), Some(&short)).unwrap());
}

fn copy(source: &str, target: &str) -> CopyResource {
    CopyResource { source: source.to_string(), target: target.to_string() }
}

fn skipped_reason(a: &CopyAction) -> String {
    match a {
        CopyAction::Skipped { reason, .. } => reason.clone(),
        other => panic!("unexpected: {:?}", other),
    }
}

#[test]
fn copy_plans() {
    let r = copy(".env.template", ".env");
    match CopyManager::plan(&r, "/main", "/wt", false, true, true, false).unwrap() {
        CopyStep::Done(a) => assert!(skipped_reason(&a).contains("does not exist")),
        other => panic!("unexpected: {:?}", other),
    }
    match CopyManager::plan(&r, "/main", "/wt", true, false, true, false) {
        Err(HnError::CopyError(m)) => assert_eq!(m, "Source is outside repository boundaries"),
        other => panic!("unexpected: {:?}", other),
    }
    match CopyManager::plan(&r, "/main", "/wt", true, true, false, false).unwrap() {
        CopyStep::Done(a) => assert_eq!(skipped_reason(&a), "Source is not a file (only files can be copied)"),
        other => panic!("unexpected: {:?}", other),
    }
    match CopyManager::plan(&r, "/main", "/wt", true, true, true, true).unwrap() {
        CopyStep::Done(a) => assert_eq!(skipped_reason(&a), "Target already exists"),
        other => panic!("unexpected: {:?}", other),
    }
    match CopyManager::plan(&r, "/main", "/wt", true, true, true, false).unwrap() {
        CopyStep::Copy { source, target } => {
            assert_eq!(source, "/main/.env.template");
            assert_eq!(target, "/wt/.env");
        }
        other => panic!("unexpected: {:?}", other),
    }
}

#[test]
fn copy_outcomes_become_actions() {
    let r = copy("a", "b");
    let done = CopyManager::finish("/m/a".to_string(), "/w/b".to_string(), Ok(true)).unwrap();
    assert!(matches!(done, CopyAction::Copied { .. }));
    let outside = CopyManager::finish("/m/a".to_string(), "/w/b".to_string(), Ok(false));
    let actions = CopyManager::setup(&[r], vec![outside]).unwrap();
    assert_eq!(actions.len(), 1);
    assert_eq!(
        skipped_reason(&actions[0]),
        "Error: Copy error: Target is outside repository boundaries"
    );
}

#[test]
fn symlink_plans() {
    let r = SharedResource {
        source: "node_modules".to_string(),
        target: "node_modules".to_string(),
        compatibility: Some("package-lock.json".to_string()),
    };
    match SymlinkManager::plan(&r, "/main", "/wt", Ok(false), true, false).unwrap() {
        SymlinkStep::Done(SymlinkAction::Skipped { reason, .. }) => {
            assert_eq!(reason, "Incompatible lockfile: package-lock.json")
        }
        other => panic!("unexpected: {:?}", other),
    }
    match SymlinkManager::plan(&r, "/main", "/wt", Ok(true), true, false).unwrap() {
        SymlinkStep::Link { source, target } => {
            assert_eq!(source, "/main/node_modules");
            assert_eq!(target, "/wt/node_modules");
        }
        other => panic!("unexpected: {:?}", other),
    }
    match SymlinkManager::plan(&r, "/main", "/wt", Ok(true), false, false).unwrap() {
        SymlinkStep::Done(SymlinkAction::Skipped { reason, .. }) => {
            assert_eq!(reason, "Source does not exist in main repository")
        }
        other => panic!("unexpected: {:?}", other),
    }
    let failed = SymlinkManager::plan(&r, "/main", "/wt", Err(HnError::Io("boom".to_string())), true, false);
    let actions = SymlinkManager::setup(&[r], vec![failed.map(|_| SymlinkAction::Skipped {
        resource: String::new(),
        reason: String::new(),
    })])
    .unwrap();
    match &actions[0] {
        SymlinkAction::Skipped { resource, reason } => {
            assert_eq!(resource, "node_modules");
            assert_eq!(reason, "Error: IO error: boom");
        }
        other => panic!("unexpected: {:?}", other),
    }
}

#[test]
fn test_identical_lockfiles() {
    let lock = b"dependencies: foo@1.0.0".to_vec();
    assert!(CompatibilityChecker::is_compatible(Some(&lock), Some(&lock.clone())).unwrap());
}

#[test]
fn test_different_lockfiles() {
    let main = b"dependencies: foo@1.0.0".to_vec();
    let worktree = b"dependencies: foo@2.0.0".to_vec();
    assert!(!CompatibilityChecker::is_compatible(Some(&main), Some(&worktree)).unwrap());
}

#[test]
fn test_missing_lockfiles() {
    assert!(!CompatibilityChecker::is_compatible(None, None).unwrap());
}

#[test]
fn test_copy_file() {
    let r = copy(".env.template", ".env");
    let (source, target) = match CopyManager::plan(&r, "/t/main", "/t/worktree", true, true, true, false).unwrap() {
        CopyStep::Copy { source, target } => (source, target),
        other => panic!("Expected file to be copied, got {:?}", other),
    };
    assert_eq!(target, "/t/worktree/.env");
    let done = CopyManager::finish(source, target, Ok(true));
    let actions = CopyManager::setup(&[r], vec![done]).unwrap();
    assert_eq!(actions.len(), 1);
    assert!(matches!(actions[0], CopyAction::Copied { .. }));
}

#[test]
fn test_skip_missing_source() {
    let r = copy(".env.template", ".env");
    match CopyManager::plan(&r, "/t/main", "/t/worktree", false, true, false, false).unwrap() {
        CopyStep::Done(a) => assert!(skipped_reason(&a).contains("does not exist")),
        other => panic!("Expected copy to be skipped, got {:?}", other),
    }
}

#[test]
fn test_skip_existing_target() {
    let r = copy(".env.template", ".env");
    match CopyManager::plan(&r, "/t/main", "/t/worktree", true, true, true, true).unwrap() {
        CopyStep::Done(a) => assert!(skipped_reason(&a).contains("already exists")),
        other => panic!("Expected copy to be skipped, got {:?}", other),
    }
}

#[test]
fn test_skip_directory() {
    let r = copy("config", "config");
    match CopyManager::plan(&r, "/t/main", "/t/worktree", true, true, false, false).unwrap() {
        CopyStep::Done(a) => assert!(skipped_reason(&a).contains("not a file")),
        other => panic!("Expected copy to be skipped, got {:?}", other),
    }
}

fn node_modules(compatibility: Option<&str>, source: &str) -> SharedResource {
    SharedResource {
        source: source.to_string(),
        target: "node_modules".to_string(),
        compatibility: compatibility.map(|c| c.to_string()),
    }
}

#[test]
fn test_create_symlink_compatible() {
    let r = node_modules(Some("package-lock.json"), "node_modules");
    let lock = b"dependencies: foo@1.0.0".to_vec();
    let compatible = CompatibilityChecker::is_compatible(Some(&lock), Some(&lock.clone()));
    match SymlinkManager::plan(&r, "/t/main", "/t/worktree", compatible, true, false).unwrap() {
        SymlinkStep::Link { source, target } => {
            assert_eq!(source, "/t/main/node_modules");
            assert_eq!(target, "/t/worktree/node_modules");
        }
        other => panic!("Expected symlink to be created, got {:?}", other),
    }
}

#[test]
fn test_skip_incompatible_lockfile() {
    let r = node_modules(Some("package-lock.json"), "node_modules");
    let main = b"dependencies: foo@1.0.0".to_vec();
    let worktree = b"dependencies: foo@2.0.0".to_vec();
    let compatible = CompatibilityChecker::is_compatible(Some(&main), Some(&worktree));
    match SymlinkManager::plan(&r, "/t/main", "/t/worktree", compatible, true, false).unwrap() {
        SymlinkStep::Done(SymlinkAction::Skipped { reason, .. }) => assert!(reason.contains("Incompatible lockfile")),
        other => panic!("Expected symlink to be skipped, got {:?}", other),
    }
}

#[test]
fn test_reject_traversal() {
    let r = node_modules(None, "../outside");
    let (source, target) = match SymlinkManager::plan(&r, "/t/main", "/t/worktree", Ok(true), true, false).unwrap() {
        SymlinkStep::Link { source, target } => (source, target),
        other => panic!("unexpected: {:?}", other),
    };
    assert_eq!(target, "/t/worktree/node_modules");
    // The link would point at /t/outside once resolved, which lies outside the repository.
    assert_eq!(source, "/t/main/../outside");
    let outcome = validate_path_within_repo("/t/outside", "/t/main").map(|_| SymlinkAction::Created { source, target });
    let actions = SymlinkManager::setup(&[r], vec![outcome]).unwrap();
    match &actions[0] {
        SymlinkAction::Skipped { reason, .. } => assert!(reason.contains("Error")),
        other => panic!("Expected symlink to be skipped or error, got {:?}", other),
    }
}

#[test]
fn links_leaving_the_repository_are_removed() {
    let kept = SymlinkManager::finish("/m/a".to_string(), "/w/a".to_string(), Ok(()), Ok(()));
    assert!(matches!(kept, LinkEnd::Keep(SymlinkAction::Created { .. })));
    let out = SymlinkManager::finish(
        "/m/../outside".to_string(),
        "/w/a".to_string(),
        Ok(()),
        Err(HnError::SymlinkError("Path is outside repository boundaries".to_string())),
    );
    match out {
        LinkEnd::Remove { target, error: HnError::SymlinkError(m) } => {
            assert_eq!(target, "/w/a");
            assert_eq!(m, "Path is outside repository boundaries");
        }
        other => panic!("unexpected: {:?}", other),
    }
    let first = SymlinkManager::finish(
        "/m/a".to_string(),
        "/elsewhere/a".to_string(),
        Err(HnError::SymlinkError("target".to_string())),
        Err(HnError::SymlinkError("source".to_string())),
    );
    assert!(matches!(first, LinkEnd::Remove { error: HnError::SymlinkError(m), .. } if m == "target"));
}
