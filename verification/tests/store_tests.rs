use hannahanna::cache::{CachedRegistry, RegistryCache, DEFAULT_TTL_NANOS};
use hannahanna::error::HnError;
use hannahanna::monitoring::{ActivityEvent, ActivityLog, MetricsHistory, MetricsSnapshot};
use hannahanna::shares::{ShareEntry, ShareRegistry};
use hannahanna::state::StateManager;
use hannahanna::tags::TagIndex;
use hannahanna::vcs::Worktree;

const SECOND: u128 = 1_000_000_000;

fn create_test_worktrees() -> Vec<Worktree> {
    vec![
        Worktree {
            name: "main".to_string(),
            path: "/tmp/main".to_string(),
            branch: "main".to_string(),
            commit: "abc123".to_string(),
            parent: None,
        },
        Worktree {
            name: "feature-x".to_string(),
            path: "/tmp/feature-x".to_string(),
            branch: "feature/x".to_string(),
            commit: "def456".to_string(),
            parent: Some("main".to_string()),
        },
    ]
}

fn strings(v: &[&str]) -> Vec<String> {
    v.iter().map(|s| s.to_string()).collect()
}

fn metrics(t: u64) -> MetricsSnapshot {
    MetricsSnapshot {
        timestamp: t,
        disk_usage: 1024,
        state_dir_size: 512,
        docker_running: false,
        docker_memory_mb: None,
        docker_cpu_percent_bits: None,
    }
}

#[test]
fn test_cache_miss_on_empty() {
    let cache = RegistryCache::new("/tmp/state", None);
    // No cache file: nothing was read.
    let result = cache.get(None, 0);
    assert!(result.is_none(), "Cache should miss when empty");
}

#[test]
fn test_cache_hit_when_valid() {
    let cache = RegistryCache::new("/tmp/state", Some(60 * SECOND));
    let written = cache.set(create_test_worktrees(), 1_000 * SECOND);
    let result = cache.get(Some(written), 1_001 * SECOND);
    assert!(result.is_some(), "Cache should hit when valid");
    let cached_worktrees = result.unwrap();
    assert_eq!(cached_worktrees.len(), 2);
    assert_eq!(cached_worktrees[0].name, "main");
    assert_eq!(cached_worktrees[1].name, "feature-x");
}

#[test]
fn test_cache_miss_when_expired() {
    let cache = RegistryCache::new("/tmp/state", Some(1_000_000));
    let written = cache.set(create_test_worktrees(), 5 * SECOND);
    // Ten milliseconds later.
    let result = cache.get(Some(written), 5 * SECOND + 10_000_000);
    assert!(result.is_none(), "Cache should miss when expired");
}

#[test]
fn test_cache_invalidation() {
    let cache = RegistryCache::new("/tmp/state", Some(60 * SECOND));
    let written = cache.set(create_test_worktrees(), 10 * SECOND);
    assert!(cache.get(Some(written), 11 * SECOND).is_some());
    // Invalidating deletes the file: a later read finds nothing.
    assert!(cache.get(None, 12 * SECOND).is_none());
}

#[test]
fn test_cache_stats() {
    let cache = RegistryCache::new("/tmp/state", Some(60 * SECOND));
    assert!(cache.stats(None, 0, 0).unwrap().is_none());
    let written = cache.set(create_test_worktrees(), 100 * SECOND);
    let stats = cache.stats(Some(written), 100 * SECOND + 5, 321).unwrap().unwrap();
    assert!(stats.valid, "Cache should be valid");
    assert_eq!(stats.worktree_count, 2);
    assert!(stats.size_bytes > 0);
    assert!(stats.age < SECOND);
}

#[test]
fn test_cache_update() {
    let cache = RegistryCache::new("/tmp/state", Some(60 * SECOND));
    let _first = cache.set(create_test_worktrees(), 1 * SECOND);
    let mut worktrees2 = create_test_worktrees();
    worktrees2.push(Worktree {
        name: "feature-y".to_string(),
        path: "/tmp/feature-y".to_string(),
        branch: "feature/y".to_string(),
        commit: "ghi789".to_string(),
        parent: Some("main".to_string()),
    });
    let second = cache.set(worktrees2, 2 * SECOND);
    let result = cache.get(Some(second), 3 * SECOND).unwrap();
    assert_eq!(result.len(), 3);
    assert_eq!(result[2].name, "feature-y");
}

#[test]
fn cache_file_and_time_to_live() {
    let cache = RegistryCache::new("/repo/.hn-state", None);
    assert_eq!(cache.cache_file(), "/repo/.hn-state/.registry-cache");
    assert_eq!(cache.ttl(), DEFAULT_TTL_NANOS);
    let written = cache.set(Vec::new(), 7);
    assert_eq!(written.cached_at, 7);
    assert_eq!(written.ttl, DEFAULT_TTL_NANOS);
    // A record from the future is an error for the statistics and a miss for lookups.
    let future = CachedRegistry::new(Vec::new(), SECOND, 50);
    match cache.stats(Some(future), 10, 1) {
        Err(HnError::ConfigError(m)) => {
            assert_eq!(m, "Failed to get cache age: second time provided was later than self")
        }
        other => panic!("unexpected {:?}", other),
    }
    assert!(cache.get(Some(CachedRegistry::new(Vec::new(), SECOND, 50)), 10).is_none());
}

#[test]
fn test_tag_index() {
    let mut index = TagIndex::default();
    index.add_tags("wt1", &strings(&["backend", "urgent"]));
    index.add_tags("wt2", &strings(&["frontend"]));
    index.add_tags("wt3", &strings(&["backend"]));
    assert_eq!(index.get_worktree_tags("wt1"), vec!["backend", "urgent"]);
    assert_eq!(index.get_worktree_tags("wt2"), vec!["frontend"]);
    assert_eq!(index.get_worktrees_by_tag("backend"), vec!["wt1", "wt3"]);
    assert_eq!(index.get_tag_count("backend"), 2);
}

#[test]
fn test_activity_log() {
    let mut log = ActivityLog::new("test".to_string());
    log.add_event(ActivityEvent::WorktreeCreated {
        timestamp: 1000,
        branch: "main".to_string(),
        template: None,
    });
    assert_eq!(log.events.len(), 1);
}

#[test]
fn test_metrics_history() {
    let mut history = MetricsHistory::new("test".to_string());
    history.add_snapshot(metrics(1000));
    assert_eq!(history.snapshots.len(), 1);
}

#[test]
fn test_metrics_max_snapshots() {
    let mut history = MetricsHistory::new("test".to_string());
    history.max_snapshots = 5;
    for i in 0..10 {
        history.add_snapshot(metrics(i * 1000));
    }
    assert_eq!(history.snapshots.len(), 5);
    assert_eq!(history.snapshots[0].timestamp, 5000);
}

#[test]
fn test_create_and_remove_state_dir() {
    let manager = StateManager::for_repo("/tmp/repo");
    assert_eq!(manager.get_state_dir("feature-x"), "/tmp/repo/.hn-state/feature-x");
}

#[test]
fn test_list_orphaned() {
    let manager = StateManager::for_repo("/tmp/repo");
    let dirs = strings(&["feature-x", "feature-y", "feature-z"]);
    let active = strings(&["feature-x", "feature-y"]);
    let orphaned = manager.list_orphaned(&dirs, &active).unwrap();
    assert_eq!(orphaned.len(), 1);
    assert!(orphaned.contains(&"feature-z".to_string()));
}

#[test]
fn test_clean_orphaned() {
    let manager = StateManager::for_repo("/tmp/repo");
    let dirs = strings(&["feature-x", "feature-y", "feature-z"]);
    let active = strings(&["feature-x"]);
    let cleaned = manager.clean_orphaned(&dirs, &active).unwrap();
    assert_eq!(cleaned.len(), 2);
    assert!(cleaned.contains(&"feature-y".to_string()));
    assert!(cleaned.contains(&"feature-z".to_string()));
    assert!(!cleaned.contains(&"feature-x".to_string()));
}

#[test]
fn test_registry_operations() {
    let mut registry = ShareRegistry::new();
    assert_eq!(registry.shares.len(), 0);
    registry.add(ShareEntry {
        name: "feature-x".to_string(),
        path: "/tmp/feature-x".to_string(),
        branch: "default".to_string(),
        parent: None,
    });
    registry.add(ShareEntry {
        name: "feature-y".to_string(),
        path: "/tmp/feature-y".to_string(),
        branch: "default".to_string(),
        parent: Some("feature-x".to_string()),
    });
    assert_eq!(registry.shares.len(), 2);
    assert!(registry.find("feature-x").is_some());
    assert!(registry.find("nonexistent").is_none());
    assert!(registry.remove("feature-x"));
    assert_eq!(registry.shares.len(), 1);
    assert!(!registry.remove("nonexistent"));
}
