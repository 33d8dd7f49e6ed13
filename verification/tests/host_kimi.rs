use execmanager::contracts::{
    DaemonAuthResult, DaemonRequestEnvelope, DaemonResponseEnvelope, ExecutionId,
    HandshakeAccepted, HandshakeRejectReason, HandshakeRejected, HandshakeResponse,
    LaunchAdmission, LaunchResponse, PeerIdentity, PROTOCOL_VERSION,
};
use execmanager::host_kimi::{
    check_handshake, launch_proof, route_for, shell_launch_request, IngressError, IngressRoute,
    KimiToolCall, ManagedExecProof, ShellToolCall, ToolCallKind,
};

#[test]
fn only_agent_issued_shell_calls_are_managed() {
    let managed = route_for(KimiToolCall {
        tool_name: "Shell".to_string(),
        kind: ToolCallKind::AgentIssuedShell(ShellToolCall { command: "echo managed".to_string() }),
    });
    assert_eq!(managed, IngressRoute::Manage { command: "echo managed".to_string() });
    match route_for(KimiToolCall {
        tool_name: "Shell".to_string(),
        kind: ToolCallKind::InteractiveShellMode { command: "ls".to_string() },
    }) {
        IngressRoute::NotCovered(note) => assert!(note.reason.contains("Ctrl-X shell mode")),
        other => panic!("unexpected {other:?}"),
    }
    match route_for(KimiToolCall {
        tool_name: "Other".to_string(),
        kind: ToolCallKind::AgentIssuedShell(ShellToolCall { command: "ls".to_string() }),
    }) {
        IngressRoute::NotCovered(note) => assert!(note.reason.contains("only host-routable")),
        other => panic!("unexpected {other:?}"),
    }
}

#[test]
fn handshake_answers_decide_whether_to_launch() {
    let accepted = DaemonResponseEnvelope::Handshake(HandshakeResponse::Accepted(HandshakeAccepted {
        protocol_version: PROTOCOL_VERSION,
        auth: DaemonAuthResult::AuthenticatedSameUser {
            peer: PeerIdentity { user_id: 1, process_id: None, username: None },
        },
        capabilities: vec![],
        degraded_capabilities: vec![],
    }));
    assert_eq!(check_handshake(&accepted), Ok(()));
    let rejected = DaemonResponseEnvelope::Handshake(HandshakeResponse::Rejected(HandshakeRejected {
        reason: HandshakeRejectReason::IncompatibleProtocolVersion { expected: 1, actual: 2 },
    }));
    let error = check_handshake(&rejected).expect_err("mismatch");
    assert_eq!(error, IngressError::DaemonProtocolVersionMismatch { expected: 1, actual: 2 });
    assert_eq!(
        error.message(),
        "managed mode failed: daemon protocol version mismatch (expected 1, got 2)"
    );
    let launch = DaemonResponseEnvelope::Launch(LaunchResponse {
        admission: LaunchAdmission::Admitted,
        exec_id: ExecutionId::new("exec-9"),
    });
    assert_eq!(
        check_handshake(&launch),
        Err(IngressError::UnexpectedDaemonResponse("handshake".to_string()))
    );
    match launch_proof(&launch, "echo managed".to_string()).expect("proof") {
        ManagedExecProof::Managed(m) => {
            assert_eq!(m.exec_id, "exec-9");
            assert_eq!(m.command, "echo managed");
            assert!(m.pre_spawn);
        }
        other => panic!("unexpected {other:?}"),
    }
    match shell_launch_request("echo managed", Some("/w".to_string())) {
        DaemonRequestEnvelope::Launch(l) => {
            assert_eq!(l.source.as_deref(), Some("kimi:shell"));
            assert_eq!(l.tool_name, "Shell");
        }
        other => panic!("unexpected {other:?}"),
    }
}
