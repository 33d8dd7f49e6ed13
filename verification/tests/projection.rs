use execmanager::contracts::{ExecutionId, ProjectionState, RedactionMarker, RetentionClass};
use execmanager::daemon::executor::{admission_for, begin_launch, exit_events};
use execmanager::daemon::journal::{encode_record, scan_records, CorruptionKind, JournalEvent, ReplayError};
use execmanager::daemon::launch::{
    ExecutionMode, LaunchPolicyOutcome, ManagedExecError, ManagedLaunchSpec,
};
use execmanager::daemon::ownership::{ObservedProcess, OwnershipError, RuntimeOwnership};
use execmanager::daemon::policy::{evaluate_launch_policy, PolicyStep};
use execmanager::daemon::projection::{DecodedJournal, RuntimeProjection};
use execmanager::daemon::records::{
    build_environment_snapshot, build_history_snapshot_manifest, BlobReference,
    HistorySnapshotManifestInput, SnapshotArtifacts, SnapshotHostMetadata, SnapshotObservedFacts,
};
use execmanager::daemon::views::{GhostView, PortView, ServiceView};

const JOURNAL: &str = "/state/events.journal";

fn replay(events: Vec<JournalEvent>) -> RuntimeProjection {
    RuntimeProjection::replay_from_path(
        JOURNAL,
        DecodedJournal { events: events.into_iter().map(Ok).collect(), scan_error: None },
    )
    .expect("replay journal")
}

fn spawned_execution(exec_id: &ExecutionId, ownership: RuntimeOwnership) -> Vec<JournalEvent> {
    vec![
        JournalEvent::LaunchRequested {
            exec_id: exec_id.clone(),
            original_command: "/bin/sleep 30".to_string(),
            mode: ExecutionMode::BatchPipes,
        },
        JournalEvent::LaunchAdmitted { exec_id: exec_id.clone(), mode: ExecutionMode::BatchPipes },
        JournalEvent::ProcessSpawned {
            exec_id: exec_id.clone(),
            state: ProjectionState::Managed,
            mode: ExecutionMode::BatchPipes,
            ownership,
            stdout: None,
            stderr: None,
        },
    ]
}

fn observed_service(exec_id: &ExecutionId, port_id: &str) -> JournalEvent {
    JournalEvent::ServiceObserved {
        exec_id: exec_id.clone(),
        service: ServiceView {
            name: "observed_service".to_string(),
            state: ProjectionState::Service,
            port_ids: vec![port_id.to_string()],
        },
    }
}

#[test]
fn replay_rebuilds_runtime_state() {
    let exec_id = ExecutionId::new("exec-replay-001");
    let stdout_blob = BlobReference {
        blob_id: "blob-stdout-001".to_string(),
        sha256: "abc123def456".to_string(),
        size_bytes: 4096,
        media_type: "text/plain".to_string(),
        storage_path: "blobs/stdout/blob-stdout-001".to_string(),
    };
    let rebuilt = replay(vec![
        JournalEvent::ExecutionRegistered {
            exec_id: exec_id.clone(),
            state: ProjectionState::Managed,
            command: "python -m http.server".to_string(),
            stdout: Some(stdout_blob.clone()),
            stderr: None,
        },
        JournalEvent::ServiceObserved {
            exec_id: exec_id.clone(),
            service: ServiceView {
                name: "demo-http".to_string(),
                state: ProjectionState::Service,
                port_ids: vec!["port-http-001".to_string()],
            },
        },
        JournalEvent::PortObserved {
            exec_id: exec_id.clone(),
            port: PortView {
                port_id: "port-http-001".to_string(),
                port: 8000,
                protocol: "tcp".to_string(),
                state: ProjectionState::Service,
            },
        },
        JournalEvent::GhostStateRecorded {
            exec_id: exec_id.clone(),
            ghost_view: GhostView {
                state: ProjectionState::Detached,
                detail: "socket remained after service stop".to_string(),
            },
        },
        JournalEvent::ExecutionStateUpdated { exec_id: exec_id.clone(), state: ProjectionState::Exited },
    ]);

    let execution = rebuilt.execution(exec_id.as_str()).expect("execution projection exists");
    assert_eq!(execution.exec_id.as_str(), exec_id.as_str());
    assert_eq!(execution.state, ProjectionState::Exited);
    assert_eq!(execution.command, "python -m http.server");
    assert_eq!(execution.stdout, Some(stdout_blob));
    assert_eq!(execution.stderr, None);
    assert_eq!(
        rebuilt.service(exec_id.as_str(), "demo-http"),
        Some(&ServiceView {
            name: "demo-http".to_string(),
            state: ProjectionState::Service,
            port_ids: vec!["port-http-001".to_string()],
        })
    );
    assert_eq!(
        rebuilt.port(exec_id.as_str(), "port-http-001"),
        Some(&PortView {
            port_id: "port-http-001".to_string(),
            port: 8000,
            protocol: "tcp".to_string(),
            state: ProjectionState::Service,
        })
    );
    assert_eq!(
        rebuilt.ghost_of(exec_id.as_str()),
        Some(&GhostView {
            state: ProjectionState::Detached,
            detail: "socket remained after service stop".to_string(),
        })
    );
    assert!(!rebuilt.is_degraded());
    assert_eq!(rebuilt.journal_path(), Some(JOURNAL));
}

#[test]
fn corrupt_tail_fails_replay_unless_degraded() {
    let exec_id = ExecutionId::new("exec-corrupt-001");
    let corruption = ReplayError::CorruptRecord { offset: 64, kind: CorruptionKind::ChecksumMismatch };
    let decoded = || DecodedJournal {
        events: vec![Ok(JournalEvent::ExecutionRegistered {
            exec_id: exec_id.clone(),
            state: ProjectionState::Managed,
            command: "sleep 10".to_string(),
            stdout: None,
            stderr: None,
        })],
        scan_error: Some(corruption.clone()),
    };
    assert_eq!(
        RuntimeProjection::replay_from_path(JOURNAL, decoded()).err(),
        Some(corruption.clone())
    );
    let degraded = RuntimeProjection::replay_with_degraded_state(JOURNAL, decoded())
        .expect("degraded replay keeps what precedes the corruption");
    assert!(degraded.is_degraded());
    assert_eq!(degraded.degraded_reason(), Some(&corruption));
    assert_eq!(
        degraded.execution(exec_id.as_str()).map(|e| e.command.clone()),
        Some("sleep 10".to_string())
    );

    let undecodable = ReplayError::CorruptRecord {
        offset: 0,
        kind: CorruptionKind::InvalidJson("expected value".to_string()),
    };
    assert_eq!(
        RuntimeProjection::replay_with_degraded_state(
            JOURNAL,
            DecodedJournal { events: vec![Err(undecodable.clone())], scan_error: None },
        )
        .err(),
        Some(undecodable)
    );
}

#[test]
fn restart_reconciliation_recovers_managed_state() {
    let exec_id = ExecutionId::new("exec-reconcile-001");
    let ownership = RuntimeOwnership {
        root_pid: 4242,
        process_group_id: 4242,
        session_id: Some(4242),
        start_time_ticks: Some(9001),
    };
    let mut events = spawned_execution(&exec_id, ownership.clone());
    events.push(observed_service(&exec_id, "tcp:8080"));
    let mut projection = replay(events);
    let summary = projection.reconcile_with_observed_processes(&[ObservedProcess {
        root_pid: 4242,
        process_group_id: 4242,
        session_id: Some(4242),
        start_time_ticks: Some(9001),
    }]);

    assert!(summary.unknown_processes.is_empty());
    let execution = projection.execution(exec_id.as_str()).expect("execution projection exists");
    assert_eq!(execution.state, ProjectionState::Service);
    assert_eq!(execution.observed_state, ProjectionState::Service);
    assert_eq!(execution.ownership.as_ref(), Some(&ownership));
    assert!(projection.ghost_of(exec_id.as_str()).is_none());
    assert_eq!(
        projection
            .cleanup_target(&exec_id)
            .expect("managed execution should remain cleanup-eligible"),
        ownership.cleanup_target().expect("ownership proof is complete")
    );
}

#[test]
fn unknown_process_is_not_cleaned_up() {
    let exec_id = ExecutionId::new("exec-reconcile-unknown-001");
    let mut projection = replay(spawned_execution(
        &exec_id,
        RuntimeOwnership {
            root_pid: 5150,
            process_group_id: 5150,
            session_id: Some(5150),
            start_time_ticks: Some(77),
        },
    ));
    let stranger = ObservedProcess {
        root_pid: 5150,
        process_group_id: 5150,
        session_id: Some(5150),
        start_time_ticks: Some(88),
    };
    let summary = projection.reconcile_with_observed_processes(&[stranger.clone()]);

    assert_eq!(summary.unknown_processes, vec![stranger]);
    let execution = projection.execution(exec_id.as_str()).expect("execution projection exists");
    assert_eq!(execution.state, ProjectionState::Escaped);
    assert_eq!(execution.observed_state, ProjectionState::Escaped);
    assert_eq!(
        projection.ghost_of(exec_id.as_str()),
        Some(&GhostView {
            state: ProjectionState::Escaped,
            detail: "observed process did not match recorded ownership proof".to_string(),
        })
    );
    assert_eq!(
        projection
            .cleanup_target(&exec_id)
            .expect_err("escaped process must not be cleaned up"),
        OwnershipError::InsufficientProof {
            exec_id: Some(exec_id),
            reason: "execution is in uncertain reconciled state escaped".to_string(),
        }
    );
}

#[test]
fn unknown_execution_cleanup_is_refused() {
    let projection = replay(Vec::new());
    let exec_id = ExecutionId::new("exec-reconcile-absent-001");
    assert_eq!(
        projection
            .cleanup_target(&exec_id)
            .expect_err("cleanup must refuse unknown executions"),
        OwnershipError::InsufficientProof {
            exec_id: Some(exec_id),
            reason: "execution is not present in runtime projection".to_string(),
        }
    );
}

#[test]
fn reconciliation_is_idempotent_for_missing_execution() {
    let exec_id = ExecutionId::new("exec-reconcile-missing-001");
    let mut projection = replay(spawned_execution(
        &exec_id,
        RuntimeOwnership {
            root_pid: 8080,
            process_group_id: 8080,
            session_id: Some(8080),
            start_time_ticks: Some(101),
        },
    ));
    let first = projection.reconcile_with_observed_processes(&[]);
    let first_execution = projection.execution(exec_id.as_str()).expect("execution exists").clone();
    let first_ghost = projection.ghost_of(exec_id.as_str()).cloned();

    let second = projection.reconcile_with_observed_processes(&[]);
    let second_execution = projection.execution(exec_id.as_str()).expect("execution exists").clone();
    let second_ghost = projection.ghost_of(exec_id.as_str()).cloned();

    assert!(first.unknown_processes.is_empty());
    assert!(second.unknown_processes.is_empty());
    assert_eq!(first_execution, second_execution);
    assert_eq!(
        second_execution.state,
        ProjectionState::Missing,
        "reconciliation should mark absent managed roots explicitly"
    );
    assert_eq!(first_ghost, second_ghost);
}

#[test]
fn detached_service_without_live_root_is_marked_detached() {
    let exec_id = ExecutionId::new("exec-reconcile-detached-001");
    let mut events = spawned_execution(
        &exec_id,
        RuntimeOwnership {
            root_pid: 9090,
            process_group_id: 9090,
            session_id: Some(9090),
            start_time_ticks: Some(202),
        },
    );
    events.push(observed_service(&exec_id, "tcp:3000"));
    let mut projection = replay(events);
    let summary = projection.reconcile_with_observed_processes(&[]);

    assert!(summary.unknown_processes.is_empty());
    let execution = projection.execution(exec_id.as_str()).expect("execution projection exists");
    assert_eq!(execution.state, ProjectionState::Detached);
    assert_eq!(execution.observed_state, ProjectionState::Detached);
    assert_eq!(
        projection.ghost_of(exec_id.as_str()),
        Some(&GhostView {
            state: ProjectionState::Detached,
            detail: "managed root process is gone but runtime artifacts were previously observed"
                .to_string(),
        })
    );
}

#[test]
fn service_override_preserves_observed_runtime_truth() {
    let exec_id = ExecutionId::new("exec-service-detect-003");
    let mut events = spawned_execution(
        &exec_id,
        RuntimeOwnership {
            root_pid: 3131,
            process_group_id: 3131,
            session_id: Some(3131),
            start_time_ticks: Some(5),
        },
    );
    events.push(observed_service(&exec_id, "tcp:4000"));
    events.push(JournalEvent::ServiceOverrideApplied {
        exec_id: exec_id.clone(),
        state: ProjectionState::Managed,
    });
    let projection = replay(events);
    let execution = projection.execution(exec_id.as_str()).expect("execution projection exists");
    assert_eq!(execution.observed_state, ProjectionState::Service);
    assert_eq!(execution.service_override, Some(ProjectionState::Managed));
    assert_eq!(execution.state, ProjectionState::Managed);
}

#[test]
fn interactive_exec_without_pty_is_explicitly_rejected() {
    let error = begin_launch(ManagedLaunchSpec::new(
        ExecutionId::new("exec-managed-pty-001"),
        "/bin/echo".to_string(),
        vec!["interactive".to_string()],
        ExecutionMode::InteractivePty,
    ))
    .expect_err("interactive mode without PTY support must be rejected");
    match error {
        ManagedExecError::UnsupportedExecutionMode { requested, reason } => {
            assert_eq!(requested, ExecutionMode::InteractivePty);
            assert!(reason.contains("PTY"));
        }
        other => panic!("expected unsupported execution mode error, got {other:?}"),
    }
    let projection = replay(Vec::new());
    assert!(projection.execution("exec-managed-pty-001").is_none());
}

#[test]
fn ambiguous_form_rm_is_blocked() {
    let exec_id = ExecutionId::new("exec-rm-ambiguous-001");
    let start = begin_launch(ManagedLaunchSpec::new(
        exec_id.clone(),
        "/bin/rm".to_string(),
        vec!["*.log".to_string()],
        ExecutionMode::BatchPipes,
    ))
    .expect("batch launches are requested");
    let evaluation = match evaluate_launch_policy(start.spec).expect("policy") {
        PolicyStep::Decided(evaluation) => evaluation,
        PolicyStep::Resolve { .. } => panic!("an ambiguous operand is never resolved"),
    };
    let (evaluated, admission) = admission_for(evaluation);
    assert_eq!(
        admission.err(),
        Some(ManagedExecError::PolicyDenied {
            policy: "rm_safety_adapter".to_string(),
            reason: "operand *.log contains ambiguous shell metacharacters".to_string(),
        })
    );

    let projection = replay(vec![start.requested, evaluated]);
    let execution = projection
        .execution(exec_id.as_str())
        .expect("blocked execution should still be auditable");
    assert_eq!(execution.original_command, "/bin/rm *.log");
    assert_eq!(execution.rewritten_command, None);
    assert_eq!(
        execution.policy_outcome,
        Some(LaunchPolicyOutcome::Denied {
            policy: "rm_safety_adapter".to_string(),
            reason: "operand *.log contains ambiguous shell metacharacters".to_string(),
        })
    );
}

#[test]
fn secrets_are_redacted_in_persisted_records() {
    let exec_id = ExecutionId::new("exec-history-redaction-001");
    let spec = ManagedLaunchSpec::new(
        exec_id.clone(),
        "/bin/sh".to_string(),
        vec!["-c".to_string(), "printf retained-output".to_string()],
        ExecutionMode::BatchPipes,
    )
    .with_env("APP_ENV", "test")
    .with_env("API_TOKEN", "super-secret-token")
    .with_original_command("API_TOKEN=super-secret-token /bin/sh -c printf retained-output");
    let env_snapshot = build_environment_snapshot(&spec.exec_id, &spec.environment);
    let start = begin_launch(spec).expect("batch launches are requested");
    let manifest = build_history_snapshot_manifest(
        &exec_id,
        &env_snapshot,
        HistorySnapshotManifestInput {
            persisted_original_command: start.persisted_original_command.clone(),
            persisted_rewritten_command: None,
            observed: SnapshotObservedFacts {
                final_state: ProjectionState::Exited,
                exit_code: Some(0),
                success: true,
            },
            artifacts: SnapshotArtifacts { stdout: None, stderr: None },
        },
        1_700_000_000_000,
        SnapshotHostMetadata { platform: "linux".to_string(), arch: "x86_64".to_string() },
    );
    let (exited, recorded) = exit_events(&exec_id, env_snapshot, manifest);
    let projection = replay(vec![start.requested, exited, recorded]);

    let execution = projection.execution(exec_id.as_str()).expect("execution projection exists");
    let env_snapshot = projection
        .env_snapshot(exec_id.as_str())
        .expect("env snapshot should be persisted");
    assert_eq!(env_snapshot.retention, RetentionClass::MetadataLongLived);
    assert_eq!(env_snapshot.redaction, RedactionMarker::Redacted);
    assert!(env_snapshot.entries.iter().any(|entry| {
        entry.name == "APP_ENV"
            && entry.value.as_deref() == Some("test")
            && entry.value_redaction == RedactionMarker::Plaintext
    }));
    assert!(env_snapshot.entries.iter().any(|entry| {
        entry.name_redaction == RedactionMarker::Redacted
            && entry.value_redaction == RedactionMarker::Omitted
    }));
    let persisted = format!("{env_snapshot:?}");
    assert!(!persisted.contains("API_TOKEN"));
    assert!(!persisted.contains("super-secret-token"));
    assert!(!execution.original_command.contains("super-secret-token"));

    let manifest = projection
        .history_manifest(exec_id.as_str())
        .expect("history manifest should be present");
    assert_eq!(manifest.schema_version, 1);
    assert_eq!(manifest.retention, RetentionClass::MetadataLongLived);
    assert_eq!(manifest.execution.exec_id, exec_id);
    assert_eq!(manifest.environment.record_id, env_snapshot.record_id);
    assert_eq!(manifest.environment.redaction, RedactionMarker::Redacted);
    assert_eq!(manifest.observed.exit_code, Some(0));
    assert_eq!(manifest.observed.final_state, ProjectionState::Exited);
    assert_eq!(manifest.captured_at_epoch_ms, 1_700_000_000_000);
    assert_eq!(manifest.snapshot_id, "snapshot-exec-history-redaction-001");
}

#[test]
fn corrupt_event_is_rejected_safely() {
    let exec_id = ExecutionId::new("exec-corrupt-001");
    let first = b"{\"type\":\"execution_registered\"}".to_vec();
    let mut bytes = encode_record(&first).expect("frame first");
    let first_len = bytes.len();
    bytes.extend(encode_record(b"{\"type\":\"execution_state_updated\"}").expect("frame second"));
    let last = bytes.len() - 1;
    bytes[last] = 0xAA;

    let scan = scan_records(&bytes);
    assert_eq!(scan.frames.len(), 1);
    assert_eq!(scan.frames[0].payload_len, first.len());
    let error = scan.error.clone().expect("corrupt tail record must be rejected safely");
    match &error {
        ReplayError::CorruptRecord { offset, kind: CorruptionKind::ChecksumMismatch } => {
            assert!(*offset > 0);
            assert_eq!(*offset, first_len as u64);
        }
        other => panic!("expected checksum mismatch, got {other:?}"),
    }

    let decoded = || DecodedJournal {
        events: vec![Ok(JournalEvent::ExecutionRegistered {
            exec_id: exec_id.clone(),
            state: ProjectionState::Managed,
            command: "sleep 10".to_string(),
            stdout: None,
            stderr: None,
        })],
        scan_error: Some(error.clone()),
    };
    assert_eq!(RuntimeProjection::replay_from_path(JOURNAL, decoded()).err(), Some(error.clone()));
    let degraded = RuntimeProjection::replay_with_degraded_state(JOURNAL, decoded())
        .expect("degraded replay still returns state wrapper");
    assert!(degraded.is_degraded());
    assert_eq!(degraded.degraded_reason(), Some(&error));
    assert!(degraded.execution(exec_id.as_str()).is_some());
}

#[test]
fn each_kind_of_framing_damage_is_reported_at_its_record() {
    let good = encode_record(b"ok").expect("frame");
    let at = good.len() as u64;
    let kind_after = |tail: &[u8]| {
        let mut bytes = good.clone();
        bytes.extend_from_slice(tail);
        let scan = scan_records(&bytes);
        assert_eq!(scan.frames.len(), 1);
        match scan.error {
            Some(ReplayError::CorruptRecord { offset, kind }) => {
                assert_eq!(offset, at);
                kind
            }
            other => panic!("expected corruption, got {other:?}"),
        }
    };
    assert_eq!(kind_after(b"EXMJ\x01"), CorruptionKind::TruncatedHeader);
    assert_eq!(kind_after(b"XXXX\x01\x00\x00\x00\x00\x00\x00\x00\x00"), CorruptionKind::InvalidMagic);
    assert_eq!(
        kind_after(b"EXMJ\x02\x00\x00\x00\x00\x00\x00\x00\x00"),
        CorruptionKind::UnsupportedVersion(2)
    );
    assert_eq!(
        kind_after(b"EXMJ\x01\x05\x00\x00\x00\x00\x00\x00\x00ab"),
        CorruptionKind::TruncatedPayload { expected: 5, actual: 2 }
    );
    let empty = scan_records(&[]);
    assert!(empty.frames.is_empty() && empty.error.is_none());
}
