use execmanager::contracts::ProjectionState;
use execmanager::daemon::executor::{observation_events, spawned_events, spool_root_for};
use execmanager::daemon::journal::JournalEvent;
use execmanager::daemon::procfs::listener_for;
use execmanager::daemon::views::{PortView, ServiceView};
use execmanager::platform::{
    GovernanceCoordinator, GovernanceEnvironment, GovernancePlatform, GovernanceRequest,
    ResourceProfile,
};
use execmanager::contracts::ExecutionId;
use execmanager::daemon::journal::{crc32, encode_record, scan_records};
use execmanager::daemon::launch::{
    managed_launch_spec_from_command, ExecutionMode, LaunchPolicyOutcome, ManagedExecError,
    ManagedLaunchSpec,
};
use execmanager::daemon::ownership::{OwnershipError, RuntimeOwnership};
use execmanager::daemon::policy::{
    contains_ambiguous_shell_syntax, evaluate_launch_policy, finish_rm_policy, is_protected_path,
    operand_unresolved,
    parse_rm_operands, trash_destination, trash_location_for, validate_rm_flag, PolicyStep,
};
use execmanager::daemon::procfs::{listener_rows, merge_listeners, socket_inode, start_time_from_stat};
use execmanager::daemon::records::{hex_digest, redact_command_string_for_persistence, sha256_hex, SpooledOutput};
use execmanager::daemon::rpc::{peer_auth, rpc_execution_id, username_for_uid};
use execmanager::contracts::DaemonAuthResult;

#[test]
fn cleanup_target_requires_positive_ownership_proof() {
    let error = RuntimeOwnership {
        root_pid: 4242,
        process_group_id: 0,
        session_id: None,
        start_time_ticks: Some(99),
    }
    .cleanup_target()
    .expect_err("cleanup must refuse records without managed group proof");

    assert_eq!(
        error,
        OwnershipError::InsufficientProof {
            exec_id: None,
            reason: "managed process group id is missing".to_string(),
        }
    );
}

#[test]
fn cleanup_target_refuses_missing_root_pid_and_accepts_full_proof() {
    let missing = RuntimeOwnership { root_pid: 0, process_group_id: 7, session_id: None, start_time_ticks: None };
    assert_eq!(
        missing.cleanup_target(),
        Err(OwnershipError::InsufficientProof {
            exec_id: None,
            reason: "managed root pid is missing".to_string(),
        })
    );
    let full = RuntimeOwnership { root_pid: 9, process_group_id: 7, session_id: None, start_time_ticks: None };
    let target = full.cleanup_target().expect("target");
    assert_eq!((target.root_pid, target.process_group_id), (9, 7));
}

fn rm_spec(args: &[&str]) -> ManagedLaunchSpec {
    ManagedLaunchSpec::new(
        ExecutionId::new("exec-rm-1"),
        "/bin/rm".to_string(),
        args.iter().map(|a| a.to_string()).collect(),
        ExecutionMode::BatchPipes,
    )
}

#[test]
fn non_rm_commands_run_as_requested() {
    let spec = ManagedLaunchSpec::new(
        ExecutionId::new("exec-echo"),
        "/bin/echo".to_string(),
        vec!["hi".to_string()],
        ExecutionMode::BatchPipes,
    );
    match evaluate_launch_policy(spec).expect("policy") {
        PolicyStep::Decided(ev) => {
            assert_eq!(
                ev.outcome,
                LaunchPolicyOutcome::AllowedAsRequested {
                    policy: "rm_safety_adapter".to_string(),
                    reason: "command is not a direct rm invocation".to_string(),
                }
            );
            assert!(ev.rewritten_command.is_none());
        }
        other => panic!("unexpected {other:?}"),
    }
}

#[test]
fn rm_with_two_operands_is_denied() {
    match evaluate_launch_policy(rm_spec(&["-rf", "a", "b"])).expect("policy") {
        PolicyStep::Decided(ev) => assert_eq!(
            ev.outcome,
            LaunchPolicyOutcome::Denied {
                policy: "rm_safety_adapter".to_string(),
                reason: "rm safe delete backend only supports exactly one deterministic operand"
                    .to_string(),
            }
        ),
        other => panic!("unexpected {other:?}"),
    }
}

#[test]
fn rm_with_glob_is_denied() {
    match evaluate_launch_policy(rm_spec(&["*.txt"])).expect("policy") {
        PolicyStep::Decided(ev) => assert_eq!(
            ev.outcome,
            LaunchPolicyOutcome::Denied {
                policy: "rm_safety_adapter".to_string(),
                reason: "operand *.txt contains ambiguous shell metacharacters".to_string(),
            }
        ),
        other => panic!("unexpected {other:?}"),
    }
}

#[test]
fn rm_with_unknown_flag_or_without_operand_fails() {
    assert_eq!(
        evaluate_launch_policy(rm_spec(&["-i", "x"])).err(),
        Some(ManagedExecError::PolicyDenied {
            policy: "rm_safety_adapter".to_string(),
            reason: "rm flag -i is not supported by the safe delete adapter".to_string(),
        })
    );
    assert_eq!(
        evaluate_launch_policy(rm_spec(&["-rf"])).err(),
        Some(ManagedExecError::PolicyDenied {
            policy: "rm_safety_adapter".to_string(),
            reason: "rm command did not include any operands".to_string(),
        })
    );
}

#[test]
fn rm_single_operand_needs_resolution_then_moves_to_trash() {
    let step = evaluate_launch_policy(rm_spec(&["--", "-odd"])).expect("policy");
    let (spec, operand) = match step {
        PolicyStep::Resolve { spec, operand } => (spec, operand),
        other => panic!("unexpected {other:?}"),
    };
    assert_eq!(operand, "-odd");
    let (trash, name) = trash_location_for("/tmp/work/-odd").expect("trash");
    assert_eq!(trash, "/tmp/work/.execmanager-trash");
    assert_eq!(name, "-odd");
    let destination = trash_destination(&trash, &spec.exec_id, &name, 0);
    assert_eq!(destination, "/tmp/work/.execmanager-trash/exec-rm-1--odd");
    assert_eq!(
        trash_destination(&trash, &spec.exec_id, &name, 2),
        "/tmp/work/.execmanager-trash/exec-rm-1--odd-2"
    );
    let original = spec.original_command.clone();
    let ev = finish_rm_policy(spec, "/tmp/work/-odd", false, &destination);
    assert_eq!(ev.effective_spec.program, "/bin/mv");
    assert_eq!(
        ev.rewritten_command.as_deref(),
        Some("/bin/mv -- /tmp/work/-odd /tmp/work/.execmanager-trash/exec-rm-1--odd")
    );
    assert_eq!(ev.effective_spec.original_command, original);
    assert_eq!(original, "/bin/rm -- -odd");
}

#[test]
fn protected_paths_are_denied() {
    let protected = vec!["/".to_string(), "/home/u".to_string(), "/home/u/repo".to_string()];
    assert!(is_protected_path("/", false, &protected));
    assert!(is_protected_path("/home", false, &protected));
    assert!(is_protected_path("/home/u", false, &protected));
    assert!(!is_protected_path("/home/u/repo/file", false, &protected));
    assert!(!is_protected_path("/home/uv", false, &vec!["/home/u".to_string()]));
    assert!(is_protected_path("/mnt/x", true, &vec![]));
    let ev = finish_rm_policy(rm_spec(&["/home"]), "/home", true, "unused");
    assert_eq!(
        ev.outcome,
        LaunchPolicyOutcome::Denied {
            policy: "rm_safety_adapter".to_string(),
            reason: "resolved operand /home targets a protected path".to_string(),
        }
    );
}

#[test]
fn rm_flags_and_operands_parse_like_rm() {
    assert!(validate_rm_flag("-rRf").is_ok());
    assert!(validate_rm_flag("--force").is_ok());
    assert!(validate_rm_flag("--verbose").is_err());
    assert!(validate_rm_flag("-rv").is_err());
    let ops = parse_rm_operands(&vec!["-r".to_string(), "a".to_string(), "-f".to_string()])
        .expect("ops");
    assert_eq!(ops, vec!["a".to_string(), "-f".to_string()]);
    assert!(contains_ambiguous_shell_syntax("a;b"));
    assert!(!contains_ambiguous_shell_syntax("plain-name.txt"));
}

#[test]
fn journal_records_are_found_again_after_framing() {
    let mut bytes = encode_record(b"{\"a\":1}").expect("frame");
    bytes.extend(encode_record(b"second").expect("frame"));
    let scan = scan_records(&bytes);
    assert!(scan.error.is_none());
    assert_eq!(scan.frames.len(), 2);
}

#[test]
fn crc32_matches_the_standard_check_value() {
    assert_eq!(crc32(b"123456789"), 0xCBF4_3926);
}

#[test]
fn redaction_hides_secret_flag_values_and_secret_env_values() {
    assert_eq!(
        redact_command_string_for_persistence("curl --token abc  API_KEY=xyz  ok"),
        "curl --token <redacted> API_KEY=<redacted> ok"
    );
}

#[test]
fn launch_command_is_tokenized_without_a_shell() {
    let spec = managed_launch_spec_from_command(ExecutionId::new("e"), "echo  managed").expect("spec");
    assert_eq!(spec.program, "echo");
    assert_eq!(spec.args, vec!["managed".to_string()]);
    assert!(managed_launch_spec_from_command(ExecutionId::new("e"), "echo \"x\"").is_err());
    assert!(managed_launch_spec_from_command(ExecutionId::new("e"), "   ").is_err());
}

#[test]
fn proc_tables_give_listening_ports_of_the_process() {
    let table = "  sl  local_address rem_address   st tx_queue rx_queue tr tm->when retrnsmt   uid  timeout inode\n   0: 00000000:0BB8 00000000:0000 0A 00000000:00000000 00:00000000 00000000  1000        0 555 1 0\n   1: 00000000:1F90 00000000:0000 01 00000000:00000000 00:00000000 00000000  1000        0 556 1 0\n";
    let rows = listener_rows(table, &vec![555, 556], "tcp");
    assert_eq!(rows.len(), 1);
    assert_eq!(rows[0].port, 3000);
    assert_eq!(rows[0].port_id, "tcp:3000");
    let merged = merge_listeners(rows.clone(), rows);
    assert_eq!(merged.len(), 1);
    assert_eq!(socket_inode("socket:[12345]"), Some(12345));
    assert_eq!(socket_inode("pipe:[1]"), None);
}

#[test]
fn stat_start_time_is_the_twenty_second_field() {
    let stat = "4242 (my (odd) cmd) S 1 4242 4242 0 -1 4194560 100 0 0 0 1 2 0 0 20 0 1 0 98765 1000 100";
    assert_eq!(start_time_from_stat(stat), Ok(98765));
    assert_eq!(
        start_time_from_stat("no paren here"),
        Err("failed to parse /proc stat command boundary".to_string())
    );
    assert_eq!(
        start_time_from_stat("1 (x) S 1"),
        Err("missing /proc stat start time field".to_string())
    );
}

#[test]
fn peers_of_other_users_are_unauthenticated() {
    match peer_auth(1, 2, Some(5), None) {
        DaemonAuthResult::Unauthenticated { reason } => {
            assert_eq!(reason, "peer uid 1 does not match daemon uid 2")
        }
        other => panic!("unexpected {other:?}"),
    }
    assert_eq!(
        username_for_uid("root:x:0:0::/root:/bin/sh\nkimi:x:1000:1000::/home/kimi:/bin/sh\n", 1000),
        Some("kimi".to_string())
    );
    assert_eq!(rpc_execution_id(17, 3).as_str(), "exec-rpc-17-3");
}

#[test]
fn an_unresolvable_operand_is_denied_by_the_rm_policy() {
    assert_eq!(
        operand_unresolved("operand x could not be resolved deterministically: gone".to_string()),
        ManagedExecError::PolicyDenied {
            policy: "rm_safety_adapter".to_string(),
            reason: "operand x could not be resolved deterministically: gone".to_string(),
        }
    );
}

#[test]
fn output_digests_are_sha256_in_lowercase_hex() {
    assert_eq!(
        sha256_hex(b""),
        "e3b0c44298fc1c149afbf4c8996fb92427ae41e4649b934ca495991b7852b855"
    );
    assert_eq!(
        sha256_hex(b"abc"),
        "ba7816bf8f01cfea414140de5dae2223b00361a396177a9cb410ff61f20015ad"
    );
    assert_eq!(hex_digest(&[0x00, 0x0f, 0xa5, 0xff]), "000fa5ff");
    let empty = SpooledOutput::empty("blob".to_string(), "/tmp/out.log".to_string());
    assert_eq!(empty.sha256, sha256_hex(b""));
    assert_eq!(empty.size_bytes, 0);
}

#[test]
fn spawn_observation_and_spool_records_of_an_execution() {
    let exec_id = ExecutionId::new("exec-events-001");
    let ownership = RuntimeOwnership {
        root_pid: 10,
        process_group_id: 10,
        session_id: Some(10),
        start_time_ticks: Some(5),
    };
    let snapshot = GovernanceCoordinator::for_environment(GovernanceEnvironment::for_host(
        GovernancePlatform::Unsupported,
    ))
    .prepare(GovernanceRequest::new("exec-events-001", ResourceProfile::default()))
    .expect("unsupported plan")
    .snapshot()
    .clone();
    let (spawned, governed) =
        spawned_events(&exec_id, ExecutionMode::BatchPipes, ownership, snapshot.clone());
    assert_eq!(
        spawned,
        JournalEvent::ProcessSpawned {
            exec_id: exec_id.clone(),
            state: ProjectionState::Managed,
            mode: ExecutionMode::BatchPipes,
            ownership,
            stdout: None,
            stderr: None,
        }
    );
    assert_eq!(
        governed,
        JournalEvent::ResourceGovernanceRecorded { exec_id: exec_id.clone(), snapshot }
    );

    assert!(observation_events(&exec_id, Vec::new()).is_none());
    let (events, observation) =
        observation_events(&exec_id, vec![listener_for("tcp", 8080)]).expect("a listener");
    assert_eq!(observation.service_name, "observed_service");
    assert_eq!(
        events,
        vec![
            JournalEvent::PortObserved {
                exec_id: exec_id.clone(),
                port: PortView {
                    port_id: "tcp:8080".to_string(),
                    port: 8080,
                    protocol: "tcp".to_string(),
                    state: ProjectionState::Service,
                },
            },
            JournalEvent::ServiceObserved {
                exec_id: exec_id.clone(),
                service: ServiceView {
                    name: "observed_service".to_string(),
                    state: ProjectionState::Service,
                    port_ids: vec!["tcp:8080".to_string()],
                },
            },
        ]
    );

    assert_eq!(
        spool_root_for("/state/events.journal", &exec_id),
        "/state/blobs/exec-events-001"
    );
    assert_eq!(spool_root_for("events.journal", &exec_id), "blobs/exec-events-001");
}
