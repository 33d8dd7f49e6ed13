use execmanager::platform::{
    compute_capability, linux_cgroup_path, linux_limit_writes, parse_controllers,
    parse_cpu_usage, parse_enforcement_triggered, parse_metric_file, GovernanceCapability,
    GovernanceCoordinator, GovernanceEnvironment, GovernancePlan, GovernancePlatform,
    GovernanceRequest, LinuxPreparation, PlacementState, ResourceMetrics, ResourceProfile,
};

const MACOS_PLACEMENT: &str =
    "macOS has no cgroup placement path; degraded governance must stay explicit";

fn metrics(current: u64, peak: u64, cpu: Option<u64>) -> ResourceMetrics {
    ResourceMetrics {
        memory_current_bytes: Some(current),
        memory_peak_bytes: Some(peak),
        cpu_usage_micros: cpu,
    }
}

#[test]
fn linux_cgroup_enforcement_path_works() {
    let root = "/sys/fs/cgroup-test/cgroup2";
    let request = GovernanceRequest::new(
        "exec-linux-cgroup-001",
        ResourceProfile {
            memory_max_bytes: Some(64 * 1024 * 1024),
            cpu_max_micros: Some(50_000),
            cpu_period_micros: Some(100_000),
        },
    );
    let coordinator =
        GovernanceCoordinator::for_environment(GovernanceEnvironment::linux_for_tests(root));
    assert!(coordinator.prepare(request.clone()).is_none(), "the caller prepares the cgroup");

    let controllers = parse_controllers("cpu memory");
    let cgroup_path = linux_cgroup_path(root, &request.exec_id);
    assert_eq!(cgroup_path, "/sys/fs/cgroup-test/cgroup2/execmanager/exec-linux-cgroup-001");
    assert_eq!(
        linux_limit_writes(request.profile, &controllers),
        vec![
            ("memory.max".to_string(), format!("{}\n", 64 * 1024 * 1024)),
            ("cpu.max".to_string(), "50000 100000\n".to_string()),
        ]
    );
    let mut plan = GovernancePlan::from_linux_preparation(
        request.clone(),
        cgroup_path.clone(),
        LinuxPreparation {
            controllers,
            cgroup_created: true,
            memory_write_error: None,
            cpu_write_error: None,
            has_observation: true,
        },
    );
    assert_eq!(plan.cgroup_path(), Some(cgroup_path.as_str()));

    plan.apply_to_pid(4242, Ok(()), true);
    let cpu = parse_cpu_usage(&vec!["usage_usec 1234".to_string()]);
    plan.capture(
        metrics(
            parse_metric_file("4096\n").expect("memory.current"),
            parse_metric_file("8192\n").expect("memory.peak"),
            cpu,
        ),
        parse_metric_file("8192\n"),
        parse_enforcement_triggered(&vec!["low 0".to_string(), "max 0".to_string()]),
        true,
    );
    let snapshot = plan.snapshot().clone();

    assert_eq!(snapshot.platform, GovernancePlatform::Linux);
    assert_eq!(snapshot.capability, GovernanceCapability::FullyEnforced);
    assert_eq!(snapshot.profile, request.profile);
    assert_eq!(snapshot.placement, PlacementState::Applied { target: cgroup_path });
    assert_eq!(snapshot.current.memory_current_bytes, Some(4096));
    assert_eq!(snapshot.recent_peak.memory_peak_bytes, Some(8192));
    assert_eq!(snapshot.current.cpu_usage_micros, Some(1234));
    assert!(!snapshot.enforcement_triggered);
    assert!(snapshot.enforcement_gaps.is_empty());
}

#[test]
fn linux_placement_failure_and_missing_controllers_are_gaps() {
    let request = GovernanceRequest::new(
        "exec-linux-gaps",
        ResourceProfile { memory_max_bytes: Some(1024), cpu_max_micros: Some(10), cpu_period_micros: None },
    );
    let controllers = parse_controllers("memory");
    assert_eq!(
        linux_limit_writes(request.profile, &controllers),
        vec![("memory.max".to_string(), "1024\n".to_string())]
    );
    let mut plan = GovernancePlan::from_linux_preparation(
        request.clone(),
        "/cg/execmanager/exec-linux-gaps".to_string(),
        LinuxPreparation {
            controllers,
            cgroup_created: true,
            memory_write_error: None,
            cpu_write_error: None,
            has_observation: true,
        },
    );
    assert!(plan.snapshot().enforcement_gaps.iter().any(|gap| gap.scope == "cpu_controller"));
    plan.apply_to_pid(7, Err("denied".to_string()), true);
    assert_eq!(
        plan.snapshot().placement,
        PlacementState::Attempted {
            reason: "failed to place pid 7 into cgroup.procs: denied".to_string()
        }
    );
    assert_eq!(plan.snapshot().capability, GovernanceCapability::PartiallyEnforced);
    assert!(parse_enforcement_triggered(&vec!["oom_kill 2".to_string()]));

    let unavailable = GovernancePlan::from_linux_preparation(
        request,
        "/cg/execmanager/exec-linux-gaps".to_string(),
        LinuxPreparation {
            controllers: Vec::new(),
            cgroup_created: false,
            memory_write_error: None,
            cpu_write_error: None,
            has_observation: false,
        },
    );
    assert_eq!(unavailable.snapshot().capability, GovernanceCapability::Unavailable);
    assert_eq!(unavailable.cgroup_path(), None);
}

#[test]
fn degraded_capability_is_explicit() {
    let mut plan = GovernanceCoordinator::for_environment(GovernanceEnvironment::macos_for_tests(
        "/observe/macos-observation",
        true,
    ))
    .prepare(GovernanceRequest::new(
        "exec-macos-001",
        ResourceProfile {
            memory_max_bytes: Some(32 * 1024 * 1024),
            cpu_max_micros: Some(25_000),
            cpu_period_micros: Some(100_000),
        },
    ))
    .expect("macOS plans need nothing from the host");

    plan.apply_to_pid(777, Ok(()), true);
    plan.capture(metrics(1024, 2048, None), Some(2048), false, true);
    let snapshot = plan.snapshot().clone();

    assert_eq!(snapshot.platform, GovernancePlatform::MacOs);
    assert_eq!(snapshot.capability, GovernanceCapability::PartiallyEnforced);
    assert_eq!(
        snapshot.placement,
        PlacementState::NotApplicable { reason: MACOS_PLACEMENT.to_string() }
    );
    assert_eq!(snapshot.current.memory_current_bytes, Some(1024));
    assert_eq!(snapshot.recent_peak.memory_peak_bytes, Some(2048));
    assert!(!snapshot.enforcement_gaps.is_empty());
    assert!(snapshot.enforcement_gaps.iter().any(|gap| gap.reason.contains("degraded")));
}

#[test]
fn observable_only_capability_is_explicit_when_setrlimit_is_unavailable() {
    let mut plan = GovernanceCoordinator::for_environment(GovernanceEnvironment::macos_for_tests(
        "/observe/macos-observation-only",
        false,
    ))
    .prepare(GovernanceRequest::new("exec-macos-observable-001", ResourceProfile::default()))
    .expect("macOS plans need nothing from the host");

    plan.apply_to_pid(888, Ok(()), true);
    plan.capture(metrics(4096, 8192, None), Some(8192), false, true);
    let snapshot = plan.snapshot().clone();

    assert_eq!(snapshot.platform, GovernancePlatform::MacOs);
    assert_eq!(snapshot.capability, GovernanceCapability::ObservableOnly);
    assert_eq!(snapshot.current.memory_current_bytes, Some(4096));
    assert_eq!(snapshot.recent_peak.memory_peak_bytes, Some(8192));
    assert_eq!(
        snapshot.placement,
        PlacementState::NotApplicable { reason: MACOS_PLACEMENT.to_string() }
    );
    assert!(!snapshot.enforcement_gaps.is_empty());
    assert!(snapshot
        .enforcement_gaps
        .iter()
        .any(|gap| gap.reason.contains("setrlimit") || gap.reason.contains("degraded")));
}

#[test]
fn unsupported_hosts_and_capability_rules() {
    let plan = GovernanceCoordinator::for_environment(GovernanceEnvironment::for_host(
        GovernancePlatform::Unsupported,
    ))
    .prepare(GovernanceRequest::new("exec-other", ResourceProfile::default()))
    .expect("unsupported hosts get an unavailable plan");
    assert_eq!(plan.snapshot().capability, GovernanceCapability::Unavailable);
    assert_eq!(plan.snapshot().enforcement_gaps[0].scope, "unsupported_platform");

    assert_eq!(compute_capability(true, true, false, true), GovernanceCapability::FullyEnforced);
    assert_eq!(compute_capability(true, true, true, false), GovernanceCapability::PartiallyEnforced);
    assert_eq!(compute_capability(true, false, true, true), GovernanceCapability::PartiallyEnforced);
    assert_eq!(compute_capability(true, false, false, false), GovernanceCapability::Unavailable);
    assert_eq!(compute_capability(false, true, false, true), GovernanceCapability::ObservableOnly);
    assert_eq!(compute_capability(false, false, false, false), GovernanceCapability::Unavailable);
}

#[test]
fn cgroup_path_joins_components_like_paths() {
    assert_eq!(linux_cgroup_path("/cg", "exec-1"), "/cg/execmanager/exec-1");
    assert_eq!(linux_cgroup_path("/cg/", "exec-1"), "/cg/execmanager/exec-1");
    assert_eq!(linux_cgroup_path("", "exec-1"), "execmanager/exec-1");
    assert_eq!(linux_cgroup_path("/cg", "/abs/exec"), "/abs/exec");
}

#[test]
fn macos_preparation_spells_out_each_degradation() {
    let coordinator = GovernanceCoordinator::for_environment(GovernanceEnvironment::macos_for_tests(
        "/obs", false,
    ));
    let plan = coordinator
        .prepare(GovernanceRequest::new(
            "exec-mac-1",
            ResourceProfile {
                memory_max_bytes: Some(1024),
                cpu_max_micros: Some(10_000),
                cpu_period_micros: None,
            },
        ))
        .expect("macOS plans are prepared without the host");
    let snapshot = plan.snapshot();
    assert_eq!(snapshot.platform, GovernancePlatform::MacOs);
    assert_eq!(snapshot.placement, PlacementState::NotApplicable { reason: MACOS_PLACEMENT.to_string() });
    let gaps: Vec<(&str, &str)> = snapshot
        .enforcement_gaps
        .iter()
        .map(|gap| (gap.scope.as_str(), gap.reason.as_str()))
        .collect();
    assert_eq!(
        gaps,
        vec![
            (
                "macos_degraded",
                "degraded: macOS has no cgroup placement path; degraded governance must stay explicit"
            ),
            ("cpu_controller", "degraded: macOS cannot provide Linux-style cpu quota enforcement"),
            (
                "setrlimit",
                "degraded: setrlimit-style enforcement is unavailable; falling back to observation"
            ),
        ]
    );
    assert_eq!(snapshot.current, ResourceMetrics::default());
    assert_eq!(snapshot.recent_peak, ResourceMetrics::default());
    assert!(!snapshot.enforcement_triggered);
    assert_ne!(snapshot.capability, GovernanceCapability::FullyEnforced);
}

#[test]
fn unsupported_preparation_names_its_reason() {
    let request = GovernanceRequest::new("exec-x", ResourceProfile::default());
    let unsupported = GovernancePlan::unsupported(request.clone());
    assert_eq!(
        unsupported.snapshot().placement,
        PlacementState::NotApplicable {
            reason: "resource governance is unavailable on this platform".to_string()
        }
    );
    assert_eq!(unsupported.snapshot().enforcement_gaps[0].scope, "unsupported_platform");
}

#[test]
fn limit_files_carry_quota_then_period() {
    let both = parse_controllers("cpu memory");
    assert_eq!(
        linux_limit_writes(
            ResourceProfile { memory_max_bytes: None, cpu_max_micros: Some(20_000), cpu_period_micros: None },
            &both,
        ),
        vec![("cpu.max".to_string(), "20000 100000\n".to_string())]
    );
    assert_eq!(
        linux_limit_writes(
            ResourceProfile { memory_max_bytes: Some(4096), cpu_max_micros: Some(1), cpu_period_micros: Some(7) },
            &parse_controllers("cpu"),
        ),
        vec![("cpu.max".to_string(), "1 7\n".to_string())]
    );
    assert!(linux_limit_writes(ResourceProfile::default(), &both).is_empty());
}

#[test]
fn failed_placement_names_the_pid_and_keeps_earlier_gaps() {
    let request = GovernanceRequest::new(
        "exec-place",
        ResourceProfile { memory_max_bytes: Some(1024), cpu_max_micros: None, cpu_period_micros: None },
    );
    let mut plan = GovernancePlan::from_linux_preparation(
        request,
        "/cg/execmanager/exec-place".to_string(),
        LinuxPreparation {
            controllers: parse_controllers("cpu"),
            cgroup_created: true,
            memory_write_error: None,
            cpu_write_error: None,
            has_observation: false,
        },
    );
    assert_eq!(
        plan.snapshot().enforcement_gaps[0].reason,
        "memory controller is unavailable; memory enforcement is degraded"
    );
    plan.apply_to_pid(77, Err("permission denied".to_string()), false);
    let reason = "failed to place pid 77 into cgroup.procs: permission denied".to_string();
    assert_eq!(plan.snapshot().placement, PlacementState::Attempted { reason: reason.clone() });
    let gaps: Vec<(&str, &str)> = plan
        .snapshot()
        .enforcement_gaps
        .iter()
        .map(|gap| (gap.scope.as_str(), gap.reason.as_str()))
        .collect();
    assert_eq!(
        gaps,
        vec![
            ("memory_controller", "memory controller is unavailable; memory enforcement is degraded"),
            ("cgroup_placement", reason.as_str()),
        ]
    );
    assert_eq!(plan.snapshot().current, ResourceMetrics::default());
}
