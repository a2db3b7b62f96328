use hannahanna::config::{ConditionalHook, HooksConfig};
use hannahanna::error::HnError;
use hannahanna::hooks::{
    any_hooks_configured, conditional_count, hook_configured, hook_failure, hook_timeout,
    partial_output, scripted_hook_types, HookExecutor,
    HookType,
};
use hannahanna::vcs::Worktree;

fn worktree(branch: &str) -> Worktree {
    Worktree {
        name: "wt".to_string(),
        path: "/repos/wt".to_string(),
        branch: branch.to_string(),
        commit: "abc1234".to_string(),
        parent: None,
    }
}

#[test]
fn test_parse_starts_with_single_quotes() {
    let result = HookExecutor::parse_starts_with("branch.startsWith('feature/')");
    assert_eq!(result, Some("feature/".to_string()));
}

#[test]
fn test_parse_starts_with_double_quotes() {
    let result = HookExecutor::parse_starts_with("branch.startsWith(\"hotfix/\")");
    assert_eq!(result, Some("hotfix/".to_string()));
}

#[test]
fn test_parse_ends_with() {
    let result = HookExecutor::parse_ends_with("branch.endsWith('-prod')");
    assert_eq!(result, Some("-prod".to_string()));
}

#[test]
fn test_parse_contains() {
    let result = HookExecutor::parse_contains("branch.contains('bugfix')");
    assert_eq!(result, Some("bugfix".to_string()));
}

#[test]
fn test_parse_invalid_condition() {
    let result = HookExecutor::parse_starts_with("branch.invalid('test')");
    assert_eq!(result, None);
}

#[test]
fn test_evaluate_condition_starts_with_match() {
    let config = HooksConfig::default();
    let executor = HookExecutor::new(config, false);
    let result = executor
        .evaluate_condition("branch.startsWith('feature/')", "feature/new-api")
        .unwrap();
    assert!(result);
}

#[test]
fn test_evaluate_condition_starts_with_no_match() {
    let config = HooksConfig::default();
    let executor = HookExecutor::new(config, false);
    let result = executor
        .evaluate_condition("branch.startsWith('feature/')", "hotfix/bug-123")
        .unwrap();
    assert!(!result);
}

#[test]
fn test_evaluate_condition_ends_with_match() {
    let config = HooksConfig::default();
    let executor = HookExecutor::new(config, false);
    let result = executor
        .evaluate_condition("branch.endsWith('-prod')", "release-prod")
        .unwrap();
    assert!(result);
}

#[test]
fn test_evaluate_condition_contains_match() {
    let config = HooksConfig::default();
    let executor = HookExecutor::new(config, false);
    let result = executor
        .evaluate_condition("branch.contains('bugfix')", "feature/bugfix-auth")
        .unwrap();
    assert!(result);
}

#[test]
fn test_evaluate_condition_invalid() {
    let config = HooksConfig::default();
    let executor = HookExecutor::new(config, false);
    let result = executor.evaluate_condition("invalid.condition()", "main");
    assert!(result.is_err());
}

#[test]
fn condition_is_trimmed_and_error_names_it() {
    let executor = HookExecutor::new(HooksConfig::default(), false);
    assert!(executor
        .evaluate_condition("  branch.startsWith('f')  ", "foo")
        .unwrap());
    match executor.evaluate_condition("  nope  ", "main") {
        Err(HnError::ConfigError(m)) => assert_eq!(
            m,
            "Invalid hook condition: 'nope'. Supported formats: branch.startsWith('...'), branch.endsWith('...'), branch.contains('...')"
        ),
        other => panic!("unexpected: {:?}", other),
    }
}

#[test]
fn hook_plan_runs_script_then_matching_conditions() {
    let mut config = HooksConfig::default();
    config.post_create = Some("echo always".to_string());
    config.post_create_conditions.push(ConditionalHook {
        condition: "branch.startsWith('feature/')".to_string(),
        command: "echo feature".to_string(),
    });
    config.post_create_conditions.push(ConditionalHook {
        condition: "branch.endsWith('-prod')".to_string(),
        command: "echo prod".to_string(),
    });
    let executor = HookExecutor::new(config, false);
    let plan = executor.run_hook(HookType::PostCreate, &worktree("feature/login"));
    assert_eq!(plan.scripts, vec!["echo always".to_string(), "echo feature".to_string()]);
    assert!(plan.error.is_none());
}

#[test]
fn hook_plan_stops_at_invalid_condition() {
    let mut config = HooksConfig::default();
    config.pre_remove_conditions.push(ConditionalHook {
        condition: "branch.contains('x')".to_string(),
        command: "echo x".to_string(),
    });
    config.pre_remove_conditions.push(ConditionalHook {
        condition: "bogus".to_string(),
        command: "echo never".to_string(),
    });
    config.pre_remove_conditions.push(ConditionalHook {
        condition: "branch.contains('x')".to_string(),
        command: "echo later".to_string(),
    });
    let executor = HookExecutor::new(config, false);
    let plan = executor.run_hook(HookType::PreRemove, &worktree("xyz"));
    assert_eq!(plan.scripts, vec!["echo x".to_string()]);
    assert!(matches!(plan.error, Some(HnError::ConfigError(_))));
}

#[test]
fn skipped_hooks_plan_nothing() {
    let mut config = HooksConfig::default();
    config.post_create = Some("echo always".to_string());
    let executor = HookExecutor::new(config, true);
    let plan = executor.run_hook(HookType::PostCreate, &worktree("main"));
    assert!(plan.scripts.is_empty());
    assert!(plan.error.is_none());
}

#[test]
fn hook_environment() {
    let executor = HookExecutor::new(HooksConfig::default(), false);
    let env = executor.build_env(&worktree("main"), "/state/wt");
    assert_eq!(env.len(), 5);
    assert_eq!(env[0], ("HNHN_NAME".to_string(), "wt".to_string()));
    assert_eq!(env[1], ("HNHN_PATH".to_string(), "/repos/wt".to_string()));
    assert_eq!(env[2], ("HNHN_BRANCH".to_string(), "main".to_string()));
    assert_eq!(env[3], ("HNHN_COMMIT".to_string(), "abc1234".to_string()));
    assert_eq!(env[4], ("HNHN_STATE_DIR".to_string(), "/state/wt".to_string()));
}

#[test]
fn hook_names_and_working_directory() {
    assert_eq!(HookType::PostSwitch.as_str(), "post_switch");
    assert_eq!(HookExecutor::working_dir(HookType::PreCreate, "/repos/wt"), "/repos");
    assert_eq!(HookExecutor::working_dir(HookType::PostCreate, "/repos/wt"), "/repos/wt");
}

#[test]
fn configured_hooks_are_summarised() {
    let mut hooks = HooksConfig::default();
    assert!(!any_hooks_configured(&hooks));
    assert!(scripted_hook_types(&hooks).is_empty());
    assert_eq!(conditional_count(&hooks), 0);
    hooks.post_create = Some("npm install".to_string());
    hooks.pre_remove = Some("echo bye".to_string());
    hooks.post_switch_conditions.push(ConditionalHook {
        condition: "branch.startsWith('feat')".to_string(),
        command: "echo feat".to_string(),
    });
    hooks.pre_create_conditions.push(ConditionalHook {
        condition: "branch.contains('x')".to_string(),
        command: "echo x".to_string(),
    });
    assert!(any_hooks_configured(&hooks));
    assert_eq!(scripted_hook_types(&hooks), vec![HookType::PostCreate, HookType::PreRemove]);
    assert_eq!(conditional_count(&hooks), 2);
    assert!(hook_configured(&hooks, HookType::PostSwitch));
    assert!(hook_configured(&hooks, HookType::PreCreate));
    assert!(hook_configured(&hooks, HookType::PostCreate));
    assert!(!hook_configured(&hooks, HookType::PostIntegrate));
}

#[test]
fn hook_failure_messages() {
    match hook_failure(HookType::PostCreate, Some(2), "out", "err") {
        HnError::HookError(m) => assert_eq!(m, "post_create hook failed with exit code 2\nStdout: out\nStderr: err"),
        other => panic!("unexpected {:?}", other),
    }
    match hook_failure(HookType::PreRemove, None, "", "") {
        HnError::HookError(m) => assert_eq!(m, "pre_remove hook failed with exit code -1\nStdout: \nStderr: "),
        other => panic!("unexpected {:?}", other),
    }
    match hook_timeout(HookType::PostSwitch, 300, "a", "b") {
        HnError::HookError(m) => {
            assert_eq!(m, "post_switch hook timed out after 300 seconds\nPartial stdout: a\nPartial stderr: b")
        }
        other => panic!("unexpected {:?}", other),
    }
}

#[test]
fn partial_outputs_keep_500_bytes() {
    assert_eq!(partial_output("short"), "short");
    let long = "x".repeat(700);
    assert_eq!(partial_output(&long).len(), 500);
    let exact = "y".repeat(500);
    assert_eq!(partial_output(&exact), exact);
    let wide = "é".repeat(300);
    assert_eq!(partial_output(&wide), "é".repeat(250));
}

fn test_worktree() -> Worktree {
    Worktree {
        name: "test-worktree".to_string(),
        path: "/tmp/t/test-worktree".to_string(),
        branch: "main".to_string(),
        commit: "abc123".to_string(),
        parent: None,
    }
}

#[test]
fn test_missing_hook_is_noop() {
    let executor = HookExecutor::new(HooksConfig::default(), false);
    let plan = executor.run_hook(HookType::PostCreate, &test_worktree());
    assert!(plan.scripts.is_empty());
    assert!(plan.error.is_none());
}

#[test]
fn test_skip_hooks_flag() {
    let config = HooksConfig { post_create: Some("exit 1".to_string()), timeout_seconds: 30, ..Default::default() };
    let executor = HookExecutor::new(config, true);
    let plan = executor.run_hook(HookType::PostCreate, &test_worktree());
    assert!(plan.scripts.is_empty(), "Hook should be skipped and not fail");
    assert!(plan.error.is_none());
}

#[test]
fn test_environment_variables_hnhn_prefix() {
    let executor = HookExecutor::new(HooksConfig::default(), false);
    let env = executor.build_env(&test_worktree(), "/tmp/t/state");
    let get = |k: &str| env.iter().find(|(n, _)| n == k).map(|(_, v)| v.clone());
    assert_eq!(get("HNHN_NAME"), Some("test-worktree".to_string()), "HNHN_NAME should be set");
    assert_eq!(get("HNHN_BRANCH"), Some("main".to_string()), "HNHN_BRANCH should be set");
    assert_eq!(get("HNHN_COMMIT"), Some("abc123".to_string()), "HNHN_COMMIT should be set");
    assert!(get("HNHN_PATH").is_some(), "HNHN_PATH should be set");
    assert!(get("HNHN_STATE_DIR").is_some(), "HNHN_STATE_DIR should be set");
}

#[test]
fn test_old_wt_variables_not_set() {
    let executor = HookExecutor::new(HooksConfig::default(), false);
    let env = executor.build_env(&test_worktree(), "/tmp/t/state");
    assert!(env.iter().all(|(n, _)| n != "WT_NAME" && n != "WT_BRANCH"), "Old WT_* variables should not be set");
}

#[test]
fn test_all_hook_types_use_hnhn_variables() {
    let types = [
        HookType::PreCreate,
        HookType::PostCreate,
        HookType::PreRemove,
        HookType::PostRemove,
        HookType::PostSwitch,
        HookType::PreIntegrate,
        HookType::PostIntegrate,
    ];
    for hook_type in types {
        let script = Some("echo \"HNHN_NAME=$HNHN_NAME\"".to_string());
        let mut config = HooksConfig::default();
        match hook_type {
            HookType::PreCreate => config.pre_create = script,
            HookType::PostCreate => config.post_create = script,
            HookType::PreRemove => config.pre_remove = script,
            HookType::PostRemove => config.post_remove = script,
            HookType::PostSwitch => config.post_switch = script,
            HookType::PreIntegrate => config.pre_integrate = script,
            HookType::PostIntegrate => config.post_integrate = script,
        }
        let executor = HookExecutor::new(config, false);
        let plan = executor.run_hook(hook_type, &test_worktree());
        assert_eq!(plan.scripts.len(), 1, "Hook {} should run", hook_type.as_str());
        let env = executor.build_env(&test_worktree(), "/tmp/t/state");
        assert!(env.contains(&("HNHN_NAME".to_string(), "test-worktree".to_string())));
    }
}

#[test]
fn partial_output_cuts_between_characters() {
    let mut s = "a".repeat(499);
    s.push('é');
    s.push_str(&"b".repeat(10));
    assert_eq!(partial_output(&s), "a".repeat(499));
}
