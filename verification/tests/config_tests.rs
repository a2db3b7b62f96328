use hannahanna::config::{parse_copy_entry, parse_copy_list, Config, ConditionalHook, HooksConfig};
use hannahanna::error::HnError;
use hannahanna::shares::SearchStep;

#[test]
fn test_default_config() {
    let config = Config::default();
    assert!(config.shared_resources.is_empty());
    assert!(config.hooks.post_create.is_none());
    assert!(config.hooks.pre_remove.is_none());
}

#[test]
fn default_hooks_time_out_after_five_minutes() {
    let hooks = HooksConfig::default();
    assert_eq!(hooks.timeout_seconds, 300);
    let config = Config::default();
    assert_eq!(config.docker.compose_file, "docker-compose.yml");
    assert_eq!(config.docker.strategy, "per-worktree");
    assert_eq!(config.docker.ports.strategy, "auto-offset");
    assert_eq!(config.docker.ports.range, Some([3000, 9999]));
    assert_eq!(config.docker.ports.base.get("postgres"), Some(&5432));
    assert_eq!(config.docker.healthcheck.timeout, "30s");
}

#[test]
fn higher_layer_hook_overrides_lower_one() {
    let mut system = Config::default();
    system.hooks.post_create = Some("echo system".to_string());
    system.hooks.pre_remove = Some("echo keep".to_string());
    let mut local = Config::default();
    local.hooks.post_create = Some("echo local".to_string());
    local.hooks.timeout_seconds = 60;
    let loaded = Config::load(vec![system, local]).unwrap();
    assert_eq!(loaded.hooks.post_create, Some("echo local".to_string()));
    assert_eq!(loaded.hooks.pre_remove, Some("echo keep".to_string()));
    assert_eq!(loaded.hooks.timeout_seconds, 60);
}

#[test]
fn merge_appends_lists_and_conditions() {
    let mut base = Config::default();
    base.sparse.paths.push("src/".to_string());
    base.hooks.post_create_conditions.push(ConditionalHook {
        condition: "branch.startsWith('a')".to_string(),
        command: "echo a".to_string(),
    });
    let mut over = Config::default();
    over.sparse.paths.push("docs/".to_string());
    over.sparse.enabled = true;
    over.hooks.post_create_conditions.push(ConditionalHook {
        condition: "branch.startsWith('b')".to_string(),
        command: "echo b".to_string(),
    });
    over.docker.compose_file = "compose.prod.yml".to_string();
    base.merge_with(over);
    assert_eq!(base.sparse.paths, vec!["src/".to_string(), "docs/".to_string()]);
    assert!(base.sparse.enabled);
    assert_eq!(base.hooks.post_create_conditions.len(), 2);
    assert_eq!(base.hooks.post_create_conditions[1].command, "echo b");
    assert_eq!(base.docker.compose_file, "compose.prod.yml");
}

#[test]
fn merging_a_default_string_keeps_the_old_one() {
    let mut base = Config::default();
    base.docker.compose_file = "custom.yml".to_string();
    base.merge_with(Config::default());
    assert_eq!(base.docker.compose_file, "custom.yml");
}

#[test]
fn load_without_layers_is_default() {
    let loaded = Config::load(Vec::new()).unwrap();
    assert!(loaded.shared_resources.is_empty());
    assert!(loaded.hooks.post_create.is_none());
    assert_eq!(loaded.hooks.timeout_seconds, 300);
}

#[test]
fn copy_entry_with_arrow() {
    let c = parse_copy_entry(".env.example -> .env").unwrap();
    assert_eq!(c.source, ".env.example");
    assert_eq!(c.target, ".env");
}

#[test]
fn copy_entry_without_arrow_is_an_error() {
    match parse_copy_entry("just-a-file") {
        Err(HnError::ConfigError(_)) => {}
        other => panic!("unexpected: {:?}", other),
    }
    let items = vec!["a -> b".to_string(), "broken".to_string()];
    assert!(parse_copy_list(&items).is_err());
    let good = vec!["a -> b".to_string(), "c -> d".to_string()];
    assert_eq!(parse_copy_list(&good).unwrap().len(), 2);
}

#[test]
fn repo_root_search_steps() {
    match Config::find_repo_root("/home/user/repo", true).unwrap() {
        SearchStep::Found(p) => assert_eq!(p, "/home/user/repo"),
        other => panic!("unexpected: {:?}", other),
    }
    match Config::find_repo_root("/home/user/repo/src", false).unwrap() {
        SearchStep::Up(p) => assert_eq!(p, "/home/user/repo"),
        other => panic!("unexpected: {:?}", other),
    }
    match Config::find_repo_root("/", false) {
        Err(HnError::NotInRepository) => {}
        other => panic!("unexpected: {:?}", other),
    }
}

#[test]
fn test_load_missing_config() {
    // No configuration file anywhere: no layers to merge.
    let config = Config::load(Vec::new()).unwrap();
    assert!(config.shared_resources.is_empty());
}

#[test]
fn test_docker_config_defaults() {
    let config = Config::default();
    assert!(!config.docker.enabled);
    assert_eq!(config.docker.strategy, "per-worktree");
    assert_eq!(config.docker.compose_file, "docker-compose.yml");
    assert!(!config.docker.auto_start);
    assert!(!config.docker.auto_stop_others);
    assert_eq!(config.docker.ports.strategy, "auto-offset");
    assert_eq!(config.docker.ports.base.get("app"), Some(&3000));
    assert_eq!(config.docker.ports.base.get("postgres"), Some(&5432));
}

#[test]
fn lower_layer_settings_survive_layers_that_do_not_set_them() {
    let mut user = Config::default();
    user.docker.ports.base.insert("app".to_string(), 4000);
    user.docker.ports.range = Some([8000, 8100]);
    let repo = Config::default();
    let merged = Config::load(vec![user, repo]).unwrap();
    assert_eq!(merged.docker.ports.base.get("app"), Some(&4000));
    assert_eq!(merged.docker.ports.base.get("postgres"), Some(&5432));
    assert_eq!(merged.docker.ports.range, Some([8000, 8100]));
    let mut local = Config::default();
    local.docker.ports.base.insert("app".to_string(), 4500);
    let merged = Config::load(vec![merged, local]).unwrap();
    assert_eq!(merged.docker.ports.base.get("app"), Some(&4500));
}

#[test]
fn repository_root_is_the_nearest_ancestor_with_git() {
    let dirs = vec!["/a/b/c".to_string(), "/a/b".to_string(), "/a".to_string(), "/".to_string()];
    assert_eq!(Config::nearest_repo_root(&dirs, &vec![false, true, true, false]).unwrap(), "/a/b");
    assert!(matches!(Config::nearest_repo_root(&dirs, &vec![false; 4]), Err(HnError::NotInRepository)));
}
