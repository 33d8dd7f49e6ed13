use execmanager::contracts::{
    evaluate_handshake, CapabilityFlag, DaemonAuthResult, DaemonResponseEnvelope,
    DegradedCapability, DegradedReason, HandshakeRejectReason, HandshakeRequest,
    HandshakeResponse, PeerIdentity,
};

#[test]
fn compatible_handshake_succeeds() {
    let request = HandshakeRequest::new("execmanager-host-kimi");

    let response = evaluate_handshake(
        &request,
        DaemonAuthResult::AuthenticatedSameUser {
            peer: PeerIdentity {
                user_id: 1000,
                process_id: Some(4242),
                username: Some("kimi".to_string()),
            },
        },
        vec![CapabilityFlag::ManagedExec, CapabilityFlag::ViewerAttach],
        vec![DegradedCapability {
            capability: CapabilityFlag::ResourceGovernance,
            reason: DegradedReason::ObservationOnly,
        }],
    );

    match response {
        DaemonResponseEnvelope::Handshake(HandshakeResponse::Accepted(accepted)) => {
            assert_eq!(accepted.protocol_version, HandshakeRequest::protocol_version());
            assert_eq!(
                accepted.auth,
                DaemonAuthResult::AuthenticatedSameUser {
                    peer: PeerIdentity {
                        user_id: 1000,
                        process_id: Some(4242),
                        username: Some("kimi".to_string()),
                    },
                }
            );
            assert_eq!(
                accepted.capabilities,
                vec![CapabilityFlag::ManagedExec, CapabilityFlag::ViewerAttach]
            );
            assert_eq!(
                accepted.degraded_capabilities,
                vec![DegradedCapability {
                    capability: CapabilityFlag::ResourceGovernance,
                    reason: DegradedReason::ObservationOnly,
                }]
            );
        }
        other => panic!("expected accepted handshake, got {other:?}"),
    }
}

#[test]
fn incompatible_version_fails_closed() {
    let mut request = HandshakeRequest::new("execmanager-host-kimi");
    request.protocol_version += 1;

    let response = evaluate_handshake(
        &request,
        DaemonAuthResult::AuthenticatedSameUser {
            peer: PeerIdentity {
                user_id: 1000,
                process_id: Some(5000),
                username: Some("kimi".to_string()),
            },
        },
        vec![CapabilityFlag::ManagedExec],
        vec![],
    );

    match response {
        DaemonResponseEnvelope::Handshake(HandshakeResponse::Rejected(rejected)) => {
            assert_eq!(
                rejected.reason,
                HandshakeRejectReason::IncompatibleProtocolVersion {
                    expected: HandshakeRequest::protocol_version(),
                    actual: HandshakeRequest::protocol_version() + 1,
                }
            );
        }
        other => panic!("expected rejected handshake, got {other:?}"),
    }
}

#[test]
fn unauthenticated_peer_is_rejected_with_its_reason() {
    let request = HandshakeRequest::new("execmanager-host-kimi");
    let response = evaluate_handshake(
        &request,
        DaemonAuthResult::Unauthenticated { reason: "peer uid 1 does not match daemon uid 2".to_string() },
        vec![CapabilityFlag::ManagedExec],
        vec![],
    );
    match response {
        DaemonResponseEnvelope::Handshake(HandshakeResponse::Rejected(rejected)) => {
            assert_eq!(
                rejected.reason,
                HandshakeRejectReason::UnauthenticatedPeer {
                    reason: "peer uid 1 does not match daemon uid 2".to_string()
                }
            );
        }
        other => panic!("expected rejected handshake, got {other:?}"),
    }
}
