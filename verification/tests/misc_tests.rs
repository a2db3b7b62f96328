use hannahanna::text::is_blank;
use hannahanna::shares::{check_share_free, check_share_removable, list_shares};
use hannahanna::vcs::Worktree;
use hannahanna::commands::{effective_sparse_paths, planned_branch};
use hannahanna::config::SparseConfig;
use hannahanna::config::HooksConfig;
use hannahanna::templates::template_warnings;
use hannahanna::templates::import_template_name;
use hannahanna::snapshot::{find_for_restore, find_stash_index, orphaned_stash_indices, stash_message, stash_ref};
use hannahanna::snapshot::find_worktree_path;
use hannahanna::commands::{format_timestamp, info_actions};
use hannahanna::cache::{cache_ttl, CachedRegistry, DEFAULT_TTL_NANOS};
use hannahanna::commands::{format_duration, SetupShell, SyncStrategy};
use hannahanna::error::HnError;
use hannahanna::monitoring::{get_activity_log_path, get_metrics_path, ActivityEvent, ActivityLog, MetricsHistory, MetricsSnapshot};
use hannahanna::shares::{discover_step, MercurialBackend, SearchStep, ShareEntry, ShareRegistry};
use hannahanna::snapshot::{after_stash, begin_snapshot, check_restore_clean, SnapshotAction, list_snapshots, snapshot_record, Snapshot, SnapshotIndex};
use hannahanna::state::StateManager;
use hannahanna::templates::{
    get_template, read_template_description, substitute_variables, validate_version_compatibility,
    TemplateManifest,
};

fn snapshot(worktree: &str, name: &str) -> Snapshot {
    Snapshot {
        name: name.to_string(),
        worktree: worktree.to_string(),
        branch: "main".to_string(),
        commit: "abc".to_string(),
        stash_ref: None,
        has_uncommitted: false,
        created_at: 1,
        description: None,
    }
}

fn metrics(t: u64) -> MetricsSnapshot {
    MetricsSnapshot {
        timestamp: t,
        disk_usage: 1024,
        state_dir_size: 512,
        docker_running: false,
        docker_memory_mb: None,
        docker_cpu_percent_bits: None,
    }
}

#[test]
fn activity_log_queries() {
    let mut log = ActivityLog::new("test".to_string());
    log.add_event(ActivityEvent::WorktreeCreated { timestamp: 1000, branch: "main".to_string(), template: None });
    log.add_event(ActivityEvent::DockerStopped { timestamp: 2000 });
    log.add_event(ActivityEvent::WorktreeRemoved { timestamp: 3000 });
    assert_eq!(log.events.len(), 3);
    assert_eq!(log.events_since(2000).len(), 2);
    assert_eq!(log.events_since(5000).len(), 0);
    let last = log.last_events(1);
    assert!(matches!(last[0], ActivityEvent::WorktreeRemoved { timestamp: 3000 }));
    assert_eq!(log.last_events(10).len(), 3);
}

#[test]
fn metrics_history_keeps_the_newest() {
    let mut history = MetricsHistory::new("test".to_string());
    assert_eq!(history.max_snapshots, 168);
    history.max_snapshots = 5;
    for i in 0..10 {
        history.add_snapshot(metrics(i * 1000));
    }
    assert_eq!(history.snapshots.len(), 5);
    assert_eq!(history.snapshots[0].timestamp, 5000);
    assert_eq!(history.range(6000, 8000).len(), 3);
    assert_eq!(history.last_snapshots(2)[0].timestamp, 8000);
}

#[test]
fn monitoring_paths() {
    assert_eq!(get_activity_log_path("/s", "wt"), "/s/wt/activity.json");
    assert_eq!(get_metrics_path("/s", "wt"), "/s/wt/metrics.json");
}

#[test]
fn snapshot_index() {
    let mut index = SnapshotIndex::new();
    index.add(snapshot("wt1", "s1"));
    index.add(snapshot("wt2", "s1"));
    index.add(snapshot("wt1", "s2"));
    assert_eq!(index.list_for_worktree("wt1").len(), 2);
    assert_eq!(index.find("wt2", "s1").unwrap().worktree, "wt2");
    assert!(index.find("wt2", "s2").is_none());
    assert!(index.remove("wt1", "s1"));
    assert!(!index.remove("wt1", "s1"));
    assert!(index.find("wt1", "s1").is_none());
    assert_eq!(list_snapshots(&index, None).unwrap().len(), 2);
    let only = list_snapshots(&index, Some("wt1")).unwrap();
    assert_eq!(only.len(), 1);
    assert_eq!(only[0].name, "s2");
}

#[test]
fn state_directories() {
    let manager = StateManager::for_repo("/repo");
    assert_eq!(manager.state_root(), "/repo/.hn-state");
    assert_eq!(manager.get_state_dir("feature"), "/repo/.hn-state/feature");
    let dirs = vec!["a".to_string(), "b".to_string(), "c".to_string()];
    let active = vec!["b".to_string()];
    assert_eq!(manager.clean_orphaned(&dirs, &active).unwrap(), vec!["a".to_string(), "c".to_string()]);
}

#[test]
fn template_variables() {
    let out = substitute_variables("name=${HNHN_NAME} path=${HNHN_PATH} br=${HNHN_BRANCH}", "wt", "/w/wt");
    assert_eq!(out, "name=wt path=/w/wt br=wt");
    assert_eq!(substitute_variables("plain", "wt", "/p"), "plain");
}

#[test]
fn template_descriptions() {
    assert_eq!(
        read_template_description(Some("\n  \n# My Template\nmore"), Some("ignored")),
        Some("My Template".to_string())
    );
    assert_eq!(read_template_description(Some("\n \n"), Some("ignored")), None);
    assert_eq!(read_template_description(None, Some("  Test template \n")), Some("Test template".to_string()));
    assert_eq!(read_template_description(None, None), None);
}

#[test]
fn templates_are_found_or_reported() {
    let t = get_template("/repo", "test-template", true, true, Some("Test template".to_string())).unwrap();
    assert_eq!(t.name, "test-template");
    assert_eq!(t.description, Some("Test template".to_string()));
    assert_eq!(t.config_path, "/repo/.hn-templates/test-template/.hannahanna.yml");
    match get_template("/repo", "nonexistent", false, false, None) {
        Err(HnError::ConfigError(m)) => assert_eq!(m, "Template 'nonexistent' not found in .hn-templates/"),
        other => panic!("unexpected: {:?}", other),
    }
    match get_template("/repo", "t", true, false, None) {
        Err(HnError::ConfigError(m)) => assert_eq!(m, "Template 't' is missing .hannahanna.yml"),
        other => panic!("unexpected: {:?}", other),
    }
}

#[test]
fn version_requirements() {
    assert!(validate_version_compatibility(">=0.5.0").is_ok());
    assert!(validate_version_compatibility(">=0.6.0").is_ok());
    assert!(validate_version_compatibility("0.9.0").is_ok());
    match validate_version_compatibility(">=99.0.0") {
        Err(HnError::ConfigError(m)) => assert_eq!(
            m,
            "Template requires hannahanna >=99.0.0 but current version is 0.6.0"
        ),
        other => panic!("unexpected: {:?}", other),
    }
    let m = TemplateManifest::new("t".to_string(), None, Some("me".to_string()), "now".to_string());
    assert_eq!(m.version, "1.0.0");
    assert_eq!(m.hannahanna_version, ">=0.6.0");
}

#[test]
fn cache_validity() {
    let c = CachedRegistry::new(Vec::new(), 30, 100);
    assert!(c.is_valid(100));
    assert!(c.is_valid(129));
    assert!(!c.is_valid(130));
    assert!(!c.is_valid(99));
    assert_eq!(c.age(110).unwrap(), 10);
    assert!(matches!(c.age(50), Err(HnError::ConfigError(_))));
    assert_eq!(cache_ttl(None), DEFAULT_TTL_NANOS);
    assert_eq!(cache_ttl(Some(5)), 5);
}

#[test]
fn durations_read_as_ages() {
    assert_eq!(format_duration(59), "59 seconds ago");
    assert_eq!(format_duration(60), "1 minutes ago");
    assert_eq!(format_duration(7200), "2 hours ago");
    assert_eq!(format_duration(86400 * 3), "3 days ago");
}

#[test]
fn shells_and_sync_strategies() {
    assert_eq!(SetupShell::detect_from("/bin/bash"), Some(SetupShell::Bash));
    assert_eq!(SetupShell::detect_from("/usr/bin/zsh"), Some(SetupShell::Zsh));
    assert_eq!(SetupShell::detect_from("/usr/bin/fish"), Some(SetupShell::Fish));
    assert_eq!(SetupShell::detect_from("/bin/sh"), None);
    assert_eq!(SetupShell::Zsh.name(), "zsh");
    assert_eq!(SyncStrategy::from_str("MERGE").unwrap(), SyncStrategy::Merge);
    assert_eq!(SyncStrategy::from_str("rebase").unwrap(), SyncStrategy::Rebase);
    match SyncStrategy::from_str("squash") {
        Err(HnError::ConfigError(m)) => assert_eq!(m, "Invalid sync strategy 'squash'. Use 'merge' or 'rebase'."),
        other => panic!("unexpected: {:?}", other),
    }
}

#[test]
fn mercurial_shares() {
    let mut reg = ShareRegistry::new();
    reg.add(ShareEntry { name: "a".to_string(), path: "/w/a".to_string(), branch: "default".to_string(), parent: None });
    reg.add(ShareEntry { name: "b".to_string(), path: "/w/b".to_string(), branch: "default".to_string(), parent: Some("a".to_string()) });
    assert_eq!(reg.find("b").unwrap().path, "/w/b");
    assert_eq!(reg.find_by_path("/w/a/src/lib.rs").unwrap().name, "a");
    assert!(reg.find_by_path("/w/ab").is_none());
    assert!(reg.remove("a"));
    assert!(reg.find("a").is_none());
    assert_eq!(reg.shares.len(), 1);
    let hg = MercurialBackend { repo_path: "/repo".to_string() };
    assert_eq!(hg.registry_path(), "/repo/.hg/wt-registry.json");
    assert!(matches!(discover_step("/repo/x", false).unwrap(), SearchStep::Up(p) if p == "/repo"));
}

#[test]
fn template_warnings_name_what_is_missing_or_blank() {
    let mut hooks = HooksConfig::default();
    assert!(template_warnings(&hooks, true).is_empty());
    assert_eq!(
        template_warnings(&hooks, false),
        vec!["Missing README.md - recommended for documentation"]
    );
    hooks.post_create = Some("  \n".to_string());
    hooks.pre_create = Some("".to_string());
    assert_eq!(
        template_warnings(&hooks, true),
        vec!["post_create hook is empty", "pre_create hook is empty"]
    );
    hooks.post_create = Some("npm install".to_string());
    assert_eq!(template_warnings(&hooks, true), vec!["pre_create hook is empty"]);
}

#[test]
fn imported_templates_are_named_and_checked() {
    let manifest = TemplateManifest::new("web".to_string(), None, None, "now".to_string());
    let existing = vec!["api".to_string()];
    assert_eq!(import_template_name(&manifest, None, &existing).unwrap(), "web");
    assert_eq!(import_template_name(&manifest, Some("site"), &existing).unwrap(), "site");
    match import_template_name(&manifest, Some("api"), &existing) {
        Err(HnError::ConfigError(m)) => assert_eq!(
            m,
            "Template 'api' already exists. Remove it first or use a different name."
        ),
        other => panic!("unexpected {:?}", other),
    }
    let mut newer = TemplateManifest::new("web".to_string(), None, None, "now".to_string());
    newer.hannahanna_version = ">=9.0.0".to_string();
    match import_template_name(&newer, None, &Vec::new()) {
        Err(HnError::ConfigError(m)) => assert_eq!(
            m,
            "Template requires hannahanna >=9.0.0 but current version is 0.6.0"
        ),
        other => panic!("unexpected {:?}", other),
    }
}

#[test]
fn snapshot_stashes_are_found_and_orphans_listed() {
    let list = "stash@{0}: On main: wip\n\
                stash@{1}: On main: hannahanna-snapshot:wt:old:5\n\
                stash@{2}: On main: hannahanna-snapshot:wt:keep:9\n";
    assert_eq!(find_stash_index(list, "hannahanna-snapshot:wt:keep:9"), Some(2));
    assert_eq!(find_stash_index(list, "hannahanna-snapshot:wt:gone:1"), None);
    assert_eq!(stash_ref(2), "stash@{2}");
    let mut index = SnapshotIndex::new();
    let mut kept = snapshot("wt", "keep");
    kept.stash_ref = Some("hannahanna-snapshot:wt:keep:9".to_string());
    index.add(kept);
    index.add(snapshot("wt", "plain"));
    assert_eq!(orphaned_stash_indices(list, &index), vec![1]);
    assert_eq!(orphaned_stash_indices(list, &SnapshotIndex::new()), vec![1, 2]);
}

#[test]
fn worktree_paths_are_found_by_directory_name() {
    let listing = "worktree /repo\nHEAD abc\nbranch refs/heads/main\n\n\
                   worktree /work/feature-x\nHEAD def\nbranch refs/heads/feature-x\n";
    assert_eq!(find_worktree_path(listing, "feature-x"), Some("/work/feature-x".to_string()));
    assert_eq!(find_worktree_path(listing, "repo"), Some("/repo".to_string()));
    assert_eq!(find_worktree_path(listing, "missing"), None);
}

#[test]
fn relative_timestamps_and_actions() {
    assert_eq!(format_timestamp(100, 130), "30s ago");
    assert_eq!(format_timestamp(100, 100), "0s ago");
    assert_eq!(format_timestamp(0, 7_200), "2h ago");
    assert_eq!(format_timestamp(0, 59 * 60), "59m ago");
    assert_eq!(format_timestamp(0, 3 * 86_400 + 5), "3d ago");
    assert_eq!(format_timestamp(200, 100), "future");
    assert_eq!(
        info_actions("feat", Some("main"), true),
        vec!["hn switch feat", "hn integrate feat main", "hn docker logs feat", "hn remove feat"]
    );
    assert_eq!(info_actions("feat", None, false), vec!["hn switch feat", "hn remove feat"]);
}

#[test]
fn shell_startup_files() {
    assert_eq!(SetupShell::Bash.rc_file(Some("/home/u")).unwrap(), "/home/u/.bashrc");
    assert_eq!(SetupShell::Zsh.rc_file(Some("/home/u")).unwrap(), "/home/u/.zshrc");
    assert_eq!(
        SetupShell::Fish.rc_file(Some("/home/u")).unwrap(),
        "/home/u/.config/fish/config.fish"
    );
    match SetupShell::Bash.rc_file(None) {
        Err(HnError::ConfigError(m)) => assert_eq!(m, "Could not determine home directory"),
        other => panic!("unexpected {:?}", other),
    }
}

#[test]
fn new_worktree_branch_and_sparse_paths() {
    assert_eq!(planned_branch(Some("b"), Some("f"), Some("c")), "b");
    assert_eq!(planned_branch(None, Some("f"), Some("c")), "f");
    assert_eq!(planned_branch(None, None, Some("c")), "c");
    assert_eq!(planned_branch(None, None, None), "unknown");
    let on = SparseConfig { enabled: true, paths: vec!["src".to_string(), "docs".to_string()] };
    let off = SparseConfig { enabled: false, paths: vec!["src".to_string()] };
    assert_eq!(effective_sparse_paths(Some(vec!["app".to_string()]), &on), vec!["app"]);
    assert_eq!(effective_sparse_paths(None, &on), vec!["src", "docs"]);
    assert!(effective_sparse_paths(None, &off).is_empty());
}

#[test]
fn mercurial_share_layout_and_listing() {
    let hg = MercurialBackend { repo_path: "/src/project".to_string() };
    assert_eq!(hg.share_path("feature").unwrap(), "/src/feature");
    assert_eq!(hg.main_name(), "project");
    match (MercurialBackend { repo_path: "/".to_string() }).share_path("x") {
        Err(HnError::ConfigError(m)) => assert_eq!(m, "Could not determine parent directory"),
        other => panic!("unexpected {:?}", other),
    }
    assert_eq!((MercurialBackend { repo_path: "/".to_string() }).main_name(), "main");
    match check_share_free("feature", true) {
        Err(HnError::WorktreeAlreadyExists(n)) => assert_eq!(n, "feature"),
        other => panic!("unexpected {:?}", other),
    }
    assert!(check_share_free("feature", false).is_ok());
    assert!(check_share_removable("f", false, true).is_ok());
    assert!(check_share_removable("f", true, false).is_ok());
    match check_share_removable("f", false, false) {
        Err(HnError::ConfigError(m)) => {
            assert_eq!(m, "Share 'f' has uncommitted changes. Use --force to remove anyway.")
        }
        other => panic!("unexpected {:?}", other),
    }
    let mut registry = ShareRegistry::new();
    for (name, parent) in [("a", None), ("b", Some("a")), ("c", None)] {
        registry.add(ShareEntry {
            name: name.to_string(),
            path: format!("/src/{}", name),
            branch: "default".to_string(),
            parent: parent.map(|p: &str| p.to_string()),
        });
    }
    let main = hg.main_worktree("default".to_string(), "abc".to_string());
    let listed: Vec<Worktree> = list_shares(
        main,
        &registry,
        &vec![true, true, false],
        vec![Some("111".to_string()), None, Some("333".to_string())],
    );
    let names: Vec<&str> = listed.iter().map(|w| w.name.as_str()).collect();
    assert_eq!(names, vec!["project", "a", "b"]);
    assert_eq!(listed[1].commit, "111");
    assert_eq!(listed[2].commit, "unknown");
    assert_eq!(listed[2].parent.as_deref(), Some("a"));
}

#[test]
fn activity_events_are_described() {
    let created = ActivityEvent::WorktreeCreated { timestamp: 1, branch: "main".to_string(), template: Some("web".to_string()) };
    assert_eq!(created.describe(), "Created from main with template 'web'");
    assert_eq!(created.icon(), "✨");
    let plain = ActivityEvent::WorktreeCreated { timestamp: 1, branch: "main".to_string(), template: None };
    assert_eq!(plain.describe(), "Created from main");
    let docker = ActivityEvent::DockerStarted { timestamp: 2, services: vec!["app".to_string(), "db".to_string()] };
    assert_eq!(docker.describe(), "Docker started (app, db)");
    let hook = ActivityEvent::HookExecuted { timestamp: 3, hook: "post_create".to_string(), duration_ms: 42, success: false };
    assert_eq!(hook.describe(), "Hook post_create executed ✗ (42 ms)");
    assert_eq!(hook.icon(), "🪝");
    let merged = ActivityEvent::IntegrationPerformed { timestamp: 4, source: "a".to_string(), target: "b".to_string() };
    assert_eq!(merged.describe(), "Integrated a → b");
    assert_eq!(ActivityEvent::WorktreeSwitched { timestamp: 5, from: None }.describe(), "Switched to this worktree");
    assert_eq!(ActivityEvent::SnapshotRestored { timestamp: 6, snapshot_name: "s".to_string() }.describe(), "Snapshot 's' restored");
}

#[test]
fn snapshot_stash_message_names_worktree_snapshot_and_time() {
    assert_eq!(stash_message("feat", "before-refactor", 1700000000), "hannahanna-snapshot:feat:before-refactor:1700000000");
}

#[test]
fn snapshot_found_for_restore_or_reported_missing() {
    let mut index = SnapshotIndex::new();
    index.add(snapshot("feat", "s1"));
    index.add(snapshot("other", "s2"));
    let found = find_for_restore(&index, "other", "s2").unwrap();
    assert_eq!(found.worktree, "other");
    assert_eq!(found.name, "s2");
    match find_for_restore(&index, "feat", "s2") {
        Err(HnError::ConfigError(m)) => assert_eq!(m, "Snapshot 's2' not found for worktree 'feat'"),
        _ => panic!("expected a missing snapshot"),
    }
}

#[test]
fn test_get_template() {
    let description = read_template_description(None, Some("Test template"));
    let template = get_template("/tmp/repo", "test-template", true, true, description).unwrap();
    assert_eq!(template.name, "test-template");
    assert_eq!(template.description, Some("Test template".to_string()));
}

#[test]
fn test_template_not_found() {
    let result = get_template("/tmp/repo", "nonexistent", false, false, None);
    assert!(result.is_err());
}

#[test]
fn snapshot_record_notes_uncommitted_changes() {
    let s = snapshot_record("feat", "s1".to_string(), "main".to_string(), "abc".to_string(), " M a.rs\n", 7, Some("d"));
    assert!(s.has_uncommitted);
    assert!(s.stash_ref.is_none());
    assert_eq!(s.description, Some("d".to_string()));
    let clean = snapshot_record("feat", "s2".to_string(), "main".to_string(), "abc".to_string(), "  \n", 7, None);
    assert!(!clean.has_uncommitted);
}

#[test]
fn failed_stash_takes_the_record_back() {
    let mut before = SnapshotIndex::new();
    before.add(snapshot("other", "x"));
    let s = snapshot("feat", "s1");
    let (index, outcome) = after_stash(before, s, "msg".to_string(), Err(HnError::CommandFailed("boom".to_string())));
    assert_eq!(index.snapshots.len(), 1);
    assert!(matches!(outcome, Err(HnError::CommandFailed(_))));
    let (index, outcome) = after_stash(index, snapshot("feat", "s1"), "msg".to_string(), Ok(()));
    assert_eq!(index.snapshots.len(), 2);
    assert_eq!(index.snapshots[1].stash_ref, Some("msg".to_string()));
    assert_eq!(outcome.unwrap().stash_ref, Some("msg".to_string()));
    assert!(check_restore_clean("").is_ok());
    match check_restore_clean("?? new.txt") {
        Err(HnError::ConfigError(m)) => assert_eq!(m, "Worktree has uncommitted changes. Commit or stash them first."),
        other => panic!("unexpected: {:?}", other),
    }
}

#[test]
fn blank_text_follows_char_is_whitespace() {
    for u in 0u32..=0x10FFFF {
        if let Some(c) = char::from_u32(u) {
            assert_eq!(is_blank(&c.to_string()), c.is_whitespace(), "U+{:04X}", u);
        }
    }
}

#[test]
fn snapshot_begins_by_saving_its_record() {
    let before = SnapshotIndex::new();
    let mut dirty = snapshot("feat", "s1");
    dirty.has_uncommitted = true;
    dirty.created_at = 42;
    let (index, action) = begin_snapshot(&before, &dirty);
    assert_eq!(index.snapshots.len(), 1);
    match action {
        SnapshotAction::Stash(m) => assert_eq!(m, "hannahanna-snapshot:feat:s1:42"),
        other => panic!("unexpected: {:?}", other),
    }
    let clean = snapshot("feat", "s2");
    let (index, action) = begin_snapshot(&index, &clean);
    assert_eq!(index.snapshots.len(), 2);
    assert_eq!(index.snapshots[1].name, "s2");
    assert!(matches!(action, SnapshotAction::Done(s) if s.name == "s2" && s.stash_ref.is_none()));
}
