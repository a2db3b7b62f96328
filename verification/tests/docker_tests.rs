use hannahanna::docker::{check_docker_enabled, check_exec_command, exec_failure, exec_service};
use hannahanna::strmap::StringMap;
use hannahanna::config::DockerConfig;
use hannahanna::docker::{ContainerManager, PortAllocator, PortRegistry};
use hannahanna::error::HnError;

#[test]
fn first_allocation_gets_the_base_port() {
    let mut allocator = PortAllocator::new("/state", PortRegistry::default()).unwrap();
    let ports = allocator.allocate("test-wt", &["app"]).unwrap();
    assert_eq!(ports.get("app"), Some(&3000));
}

#[test]
fn worktrees_get_distinct_ports() {
    let mut allocator = PortAllocator::new("/state", PortRegistry::default()).unwrap();
    let a = allocator.allocate("wt-a", &["app", "postgres"]).unwrap();
    let b = allocator.allocate("wt-b", &["app", "postgres", "redis"]).unwrap();
    assert_eq!(a.get("app"), Some(&3000));
    assert_eq!(a.get("postgres"), Some(&5432));
    assert_eq!(b.get("app"), Some(&3001));
    assert_eq!(b.get("postgres"), Some(&5433));
    assert_eq!(b.get("redis"), Some(&6379));
    // Unknown services start at 3000 too.
    let c = allocator.allocate("wt-c", &["worker"]).unwrap();
    assert_eq!(c.get("worker"), Some(&3002));
}

#[test]
fn allocation_is_idempotent() {
    let mut allocator = PortAllocator::new("/state", PortRegistry::default()).unwrap();
    allocator.allocate("wt", &["app"]).unwrap();
    let again = allocator.allocate("wt", &["redis"]).unwrap();
    assert_eq!(again.get("app"), Some(&3000));
    assert_eq!(again.get("redis"), None);
}

#[test]
fn released_ports_are_reused_and_lookup_fails() {
    let mut allocator = PortAllocator::new("/state", PortRegistry::default()).unwrap();
    allocator.allocate("wt-a", &["app"]).unwrap();
    allocator.allocate("wt-b", &["app"]).unwrap();
    assert!(allocator.release("wt-a"));
    assert!(!allocator.release("wt-a"));
    match allocator.get_ports("wt-a") {
        Err(HnError::PortAllocationError(m)) => assert_eq!(m, "No ports allocated for 'wt-a'"),
        other => panic!("unexpected: {:?}", other),
    }
    let c = allocator.allocate("wt-c", &["app"]).unwrap();
    assert_eq!(c.get("app"), Some(&3000));
    assert_eq!(allocator.get_ports("wt-b").unwrap().get("app"), Some(&3001));
    let all = allocator.list_all();
    assert_eq!(all.len(), 2);
    assert_eq!(all[0].0, "wt-b");
    assert_eq!(all[1].0, "wt-c");
}

#[test]
fn exhausted_range_is_an_error() {
    let mut allocator =
        PortAllocator::with_range("/state", PortRegistry::default(), 3000, 3000).unwrap();
    allocator.allocate("wt-a", &["app"]).unwrap();
    match allocator.allocate("wt-b", &["app"]) {
        Err(HnError::PortAllocationError(m)) => assert_eq!(
            m,
            "Port exhausted for service 'app': no available ports in range 3000-3000"
        ),
        other => panic!("unexpected: {:?}", other),
    }
    assert!(allocator.get_ports("wt-b").is_err());
}

#[test]
fn project_names_and_commands() {
    let config = DockerConfig::default();
    let manager = ContainerManager::new(&config, "/state").unwrap();
    assert_eq!(manager.get_project_name("feature-x"), "feature-x");
    assert_eq!(manager.get_project_name("feature/test"), "feature-test");
    assert_eq!(manager.get_project_name("my_feature"), "my-feature");

    let start = manager.build_start_command("feature-test", "/wt/feature-test", false).unwrap();
    assert_eq!(start, "docker-compose -p feature-test -f docker-compose.yml up -d");
    let start = manager.build_start_command("feature-test", "/wt/feature-test", true).unwrap();
    assert_eq!(
        start,
        "docker-compose -p feature-test -f docker-compose.yml -f /state/feature-test/docker-compose.override.yml up -d"
    );
    let stop = manager.build_stop_command("a/b", "/wt").unwrap();
    assert_eq!(stop, "docker-compose -p a-b down");
    let logs = manager.build_logs_command("a", "/wt", Some("db")).unwrap();
    assert_eq!(logs, "docker-compose -p a logs -f db");
    let logs = manager.build_logs_command("a", "/wt", None).unwrap();
    assert_eq!(logs, "docker-compose -p a logs -f");
}

#[test]
fn docker_availability_decides() {
    let config = DockerConfig::default();
    let manager = ContainerManager::new(&config, "/state").unwrap();
    match manager.start("a", "/wt", false, false) {
        Err(HnError::DockerError(m)) => assert_eq!(m, "Docker is not available. Please install Docker."),
        other => panic!("unexpected: {:?}", other),
    }
    assert_eq!(manager.stop("a", "/wt", false).unwrap(), None);
    assert_eq!(manager.stop("a", "/wt", true).unwrap(), Some("docker-compose -p a down".to_string()));
    let status = manager.get_status("a", "/wt", false, true).unwrap();
    assert!(!status.running);
    assert_eq!(status.container_count, 0);
    let status = manager.get_status("a", "/wt", true, true).unwrap();
    assert!(status.running);
    assert_eq!(status.container_count, 1);
    assert!(manager.list_all().unwrap().is_empty());
    assert!(manager.cleanup_orphaned(&[], &["x".to_string()], false).unwrap().is_empty());
    let active = vec!["feature/a".to_string()];
    let projects = vec!["feature-a".to_string(), "old".to_string()];
    assert_eq!(manager.cleanup_orphaned(&active, &projects, true).unwrap(), vec!["docker-compose -p old down".to_string()]);
}

#[test]
fn test_get_project_name() {
    let config = DockerConfig::default();
    let manager = ContainerManager::new(&config, "/tmp/state").unwrap();
    assert_eq!(manager.get_project_name("feature-x"), "feature-x");
    assert_eq!(manager.get_project_name("feature/test"), "feature-test");
    assert_eq!(manager.get_project_name("my_feature"), "my-feature");
}

#[test]
fn test_new_allocator() {
    let allocator = PortAllocator::new("/tmp/state", PortRegistry::default()).unwrap();
    assert_eq!(allocator.base_port("app"), Some(3000));
    assert_eq!(allocator.base_port("postgres"), Some(5432));
}

#[test]
fn test_basic_allocation() {
    let mut allocator = PortAllocator::new("/tmp/state", PortRegistry::default()).unwrap();
    let ports = allocator.allocate("test-wt", &["app"]).unwrap();
    assert_eq!(ports.get("app"), Some(&3000));
}

#[test]
fn test_build_commands() {
    let config = DockerConfig::default();
    let manager = ContainerManager::new(&config, "/tmp/t").unwrap();
    let start_cmd = manager.build_start_command("feature-test", "/tmp/t/feature-test", false).unwrap();
    assert!(start_cmd.contains("docker-compose"));
    assert!(start_cmd.contains("up -d"));
    let stop_cmd = manager.build_stop_command("feature-test", "/tmp/t/feature-test").unwrap();
    assert!(stop_cmd.contains("docker-compose"));
    assert!(stop_cmd.contains("down"));
}

#[test]
fn docker_command_checks() {
    assert!(check_docker_enabled(true).is_ok());
    match check_docker_enabled(false) {
        Err(HnError::DockerError(m)) => assert_eq!(m, "Docker support is not enabled in .hannahanna.yml"),
        other => panic!("unexpected: {:?}", other),
    }
    assert!(check_exec_command(&vec!["ls".to_string()]).is_ok());
    assert!(matches!(check_exec_command(&Vec::new()), Err(HnError::DockerError(_))));
    let mut base: StringMap<u16> = StringMap::new();
    match exec_service(None, &base) {
        Err(HnError::DockerError(m)) => assert_eq!(m, "No services configured and none specified"),
        other => panic!("unexpected: {:?}", other),
    }
    base.insert("app".to_string(), 3000);
    assert_eq!(exec_service(None, &base).unwrap(), "app");
    assert_eq!(exec_service(Some("db".to_string()), &base).unwrap(), "db");
    match exec_failure(Some(2)) {
        HnError::DockerError(m) => assert_eq!(m, "Command failed with exit code 2"),
        other => panic!("unexpected: {:?}", other),
    }
    match exec_failure(None) {
        HnError::DockerError(m) => assert_eq!(m, "Command failed with exit code -1"),
        other => panic!("unexpected: {:?}", other),
    }
}

#[test]
fn ports_of_one_request_are_distinct() {
    let mut allocator = PortAllocator::new("/state", PortRegistry::default()).unwrap();
    let m = allocator.allocate("wt", &["app", "web"]).unwrap();
    assert_eq!(m.get("app"), Some(&3000));
    assert_eq!(m.get("web"), Some(&3001));
}

#[test]
fn custom_range_is_searched() {
    let mut allocator = PortAllocator::with_range("/state", PortRegistry::default(), 8000, 8100).unwrap();
    let m = allocator.allocate("wt", &["app", "redis"]).unwrap();
    assert_eq!(m.get("app"), Some(&8000));
    let p = *m.get("redis").unwrap();
    assert!((8000..=8100).contains(&p));
    assert_eq!(p, 8001);
}
