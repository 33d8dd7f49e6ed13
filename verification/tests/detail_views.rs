use execmanager::contracts::{ExecutionId, ProjectionState, RetentionClass};
use execmanager::daemon::journal::{CorruptionKind, JournalEvent, RecordedJournalEvent, ReplayError};
use execmanager::daemon::launch::{ExecutionMode, LaunchPolicyOutcome};
use execmanager::daemon::ownership::RuntimeOwnership;
use execmanager::daemon::projection::{DecodedJournal, RuntimeProjection};
use execmanager::daemon::views::{GhostView, PortView, ServiceView};
use execmanager::platform::{
    EnforcementGap, GovernanceCapability, GovernancePlatform, GovernanceSnapshot, PlacementState,
    ResourceMetrics, ResourceProfile,
};
use execmanager::tui::app::{view_for_pane, ViewMode};
use execmanager::tui::model::PrimaryView;
use execmanager::tui::runtime::detail_for_exec;

const JOURNAL: &str = "/state/events.journal";

fn linux_governance_snapshot() -> GovernanceSnapshot {
    GovernanceSnapshot {
        platform: GovernancePlatform::Linux,
        capability: GovernanceCapability::FullyEnforced,
        profile: ResourceProfile {
            memory_max_bytes: Some(268_435_456),
            cpu_max_micros: Some(50_000),
            cpu_period_micros: Some(100_000),
        },
        placement: PlacementState::Applied {
            target: "/sys/fs/cgroup/execmanager/exec-tui-service-001".to_string(),
        },
        current: ResourceMetrics {
            memory_current_bytes: Some(65_536),
            memory_peak_bytes: Some(131_072),
            cpu_usage_micros: Some(5_000),
        },
        recent_peak: ResourceMetrics {
            memory_current_bytes: None,
            memory_peak_bytes: Some(131_072),
            cpu_usage_micros: Some(9_000),
        },
        enforcement_triggered: false,
        enforcement_gaps: Vec::new(),
    }
}

fn degraded_governance_snapshot() -> GovernanceSnapshot {
    GovernanceSnapshot {
        platform: GovernancePlatform::MacOs,
        capability: GovernanceCapability::ObservableOnly,
        profile: ResourceProfile::default(),
        placement: PlacementState::NotApplicable {
            reason: "macOS has no cgroup placement path".to_string(),
        },
        current: ResourceMetrics {
            memory_current_bytes: Some(20_480),
            memory_peak_bytes: Some(40_960),
            cpu_usage_micros: Some(1_024),
        },
        recent_peak: ResourceMetrics {
            memory_current_bytes: None,
            memory_peak_bytes: Some(40_960),
            cpu_usage_micros: Some(2_048),
        },
        enforcement_triggered: false,
        enforcement_gaps: vec![EnforcementGap {
            scope: "macos_degraded".to_string(),
            reason: "degraded: macOS has no cgroup placement path; degraded governance must stay explicit"
                .to_string(),
        }],
    }
}

/// The text of the screen's tabs and of the selected execution's detail
/// pane, for a journal of `events` (the last one's record damaged when
/// `corruption` is given).
fn screen_text(
    exec_id: &ExecutionId,
    events: Vec<JournalEvent>,
    corruption: Option<ReplayError>,
) -> String {
    let history: Vec<RecordedJournalEvent> = events
        .iter()
        .enumerate()
        .map(|(i, event)| RecordedJournalEvent {
            offset: 100 * i as u64,
            retention: RetentionClass::MetadataLongLived,
            event: event.clone(),
        })
        .collect();
    let projection = RuntimeProjection::replay_with_degraded_state(
        JOURNAL,
        DecodedJournal { events: events.into_iter().map(Ok).collect(), scan_error: corruption.clone() },
    )
    .expect("replay");
    let history = match corruption {
        Some(error) => Err(error),
        None => Ok(history),
    };
    let detail = detail_for_exec(&projection, history, exec_id.as_str(), &Vec::new(), None)
        .expect("render should succeed")
        .expect("the selected execution is known");
    assert_eq!(view_for_pane(PrimaryView::InstanceDetail), ViewMode::Instances);
    let tabs: Vec<&str> = ViewMode::ALL.iter().map(|view| view.title()).collect();
    format!("{}\n{}", tabs.join("  "), detail.join("\n"))
}

#[test]
fn service_lifecycle_shows_in_the_detail_pane() {
    let exec_id = ExecutionId::new("exec-tui-service-001");
    let events = vec![
        JournalEvent::LaunchRequested {
            exec_id: exec_id.clone(),
            original_command: "npm run dev".to_string(),
            mode: ExecutionMode::BatchPipes,
        },
        JournalEvent::LaunchPolicyEvaluated {
            exec_id: exec_id.clone(),
            rewritten_command: Some("env PORT=4173 npm run dev".to_string()),
            outcome: LaunchPolicyOutcome::Rewritten {
                policy: "port_assignment".to_string(),
                reason: "launch spec was rewritten to pin the observed listener port".to_string(),
            },
        },
        JournalEvent::LaunchAdmitted { exec_id: exec_id.clone(), mode: ExecutionMode::BatchPipes },
        JournalEvent::ProcessSpawned {
            exec_id: exec_id.clone(),
            state: ProjectionState::Managed,
            mode: ExecutionMode::BatchPipes,
            ownership: RuntimeOwnership {
                root_pid: 4242,
                process_group_id: 4242,
                session_id: Some(4242),
                start_time_ticks: Some(9001),
            },
            stdout: None,
            stderr: None,
        },
        JournalEvent::ResourceGovernanceRecorded {
            exec_id: exec_id.clone(),
            snapshot: linux_governance_snapshot(),
        },
        JournalEvent::ServiceObserved {
            exec_id: exec_id.clone(),
            service: ServiceView {
                name: "observed_service".to_string(),
                state: ProjectionState::Service,
                port_ids: vec!["tcp:4173".to_string()],
            },
        },
        JournalEvent::PortObserved {
            exec_id: exec_id.clone(),
            port: PortView {
                port_id: "tcp:4173".to_string(),
                port: 4173,
                protocol: "tcp".to_string(),
                state: ProjectionState::Service,
            },
        },
    ];
    let rendered = screen_text(&exec_id, events, None);

    for expected in [
        "Instances",
        "Services",
        "History",
        "Ghosts/Reconcile",
        "exec-tui-service-001",
        "effective state: service",
        "original command: npm run dev",
        "rewritten launch spec: env PORT=4173 npm run dev",
        "policy: rewritten by port_assignment",
        "runtime state: service (observed service)",
        "resource governance: fully_enforced",
        "current memory: 65536",
        "recent peak memory: 131072",
        "service observed_service -> tcp:4173",
        "launch_requested",
        "launch_policy_evaluated",
        "process_spawned",
        "resource_governance_recorded",
        "service_observed",
        "port_observed",
    ] {
        assert!(
            rendered.contains(expected),
            "rendered TUI should contain {expected:?}, got:\n{rendered}"
        );
    }
}

#[test]
fn degraded_state_shows_in_the_detail_pane() {
    let exec_id = ExecutionId::new("exec-tui-degraded-001");
    let events = vec![
        JournalEvent::LaunchRequested {
            exec_id: exec_id.clone(),
            original_command: "python -m http.server".to_string(),
            mode: ExecutionMode::BatchPipes,
        },
        JournalEvent::LaunchPolicyEvaluated {
            exec_id: exec_id.clone(),
            rewritten_command: None,
            outcome: LaunchPolicyOutcome::AllowedAsRequested {
                policy: "default_allow".to_string(),
                reason: "no rewrite was required".to_string(),
            },
        },
        JournalEvent::LaunchAdmitted { exec_id: exec_id.clone(), mode: ExecutionMode::BatchPipes },
        JournalEvent::ProcessSpawned {
            exec_id: exec_id.clone(),
            state: ProjectionState::Managed,
            mode: ExecutionMode::BatchPipes,
            ownership: RuntimeOwnership {
                root_pid: 5150,
                process_group_id: 5150,
                session_id: Some(5150),
                start_time_ticks: Some(77),
            },
            stdout: None,
            stderr: None,
        },
        JournalEvent::ResourceGovernanceRecorded {
            exec_id: exec_id.clone(),
            snapshot: degraded_governance_snapshot(),
        },
        JournalEvent::ExecutionStateUpdated {
            exec_id: exec_id.clone(),
            state: ProjectionState::Detached,
        },
        JournalEvent::GhostStateRecorded {
            exec_id: exec_id.clone(),
            ghost_view: GhostView {
                state: ProjectionState::Detached,
                detail: "managed root process is gone but runtime artifacts were previously observed"
                    .to_string(),
            },
        },
    ];
    // The last record, the observed port, is the damaged one.
    let corruption = ReplayError::CorruptRecord { offset: 700, kind: CorruptionKind::ChecksumMismatch };
    let rendered = screen_text(&exec_id, events, Some(corruption));

    for expected in [
        "Instances",
        "Services",
        "History",
        "Ghosts/Reconcile",
        "exec-tui-degraded-001",
        "replay degraded: journal corruption at offset",
        "resource governance: observable_only",
        "degraded: macOS has no cgroup placement path; degraded governance must stay explicit",
        "runtime state: detached",
        "ghost detached: managed root process is gone but runtime artifacts were previously observed",
        "policy: allowed_as_requested by default_allow",
        "observability degraded",
    ] {
        assert!(
            rendered.contains(expected),
            "rendered degraded TUI should contain {expected:?}, got:\n{rendered}"
        );
    }
}
