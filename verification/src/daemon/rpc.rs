//! The daemon's side of the RPC exchange: who the peer is, what the daemon
//! answers to a handshake, and how it names the executions it launches. The
//! socket, framing and encoding are the caller's.

use vstd::prelude::*;
use crate::contracts::{
    CapabilityFlag, DaemonAuthResult, DaemonResponseEnvelope, DegradedCapability, ExecutionId,
    HandshakeRejectReason, HandshakeRejected, HandshakeRequest, HandshakeResponse,
    LaunchAdmission, LaunchResponse, PeerIdentity, PROTOCOL_VERSION, evaluate_handshake,
    handshake_outcome,
};
use crate::parse::{parse_u64_chars, parse_u64_spec};
use crate::text::{
    chars_of, decimal, owned, split_by_char, split_char, split_lines, text_lines, u64_to_string,
    views,
};

verus! {

/// The daemon serves only its own user: a peer with another user id is
/// unauthenticated.
pub fn peer_auth(peer_uid: u32, daemon_uid: u32, process_id: Option<u32>, username: Option<String>) -> (r:
    DaemonAuthResult)
    ensures
        peer_uid != daemon_uid ==> (r matches DaemonAuthResult::Unauthenticated { reason } && reason@
            == "peer uid "@ + decimal(peer_uid as nat) + " does not match daemon uid "@ + decimal(
            daemon_uid as nat,
        )),
        peer_uid == daemon_uid ==> r == (DaemonAuthResult::AuthenticatedSameUser {
            peer: PeerIdentity { user_id: peer_uid, process_id, username },
        }),
{
    if peer_uid != daemon_uid {
        let mut reason = owned("peer uid ");
        reason.append(u64_to_string(peer_uid as u64).as_str());
        reason.append(" does not match daemon uid ");
        reason.append(u64_to_string(daemon_uid as u64).as_str());
        return DaemonAuthResult::Unauthenticated { reason };
    }
    DaemonAuthResult::AuthenticatedSameUser {
        peer: PeerIdentity { user_id: peer_uid, process_id, username },
    }
}

/// The user name that a `/etc/passwd` line gives `user_id`: its first field,
/// where the third field is that id.
pub open spec fn passwd_line_name(line: Seq<char>, user_id: u32) -> Option<Seq<char>> {
    let fields = split_char(line, ':');
    if fields.len() >= 3 && parse_u64_spec(fields[2]) == Some(user_id as u64) {
        Some(fields[0])
    } else {
        None
    }
}

pub open spec fn passwd_name(lines: Seq<Seq<char>>, user_id: u32) -> Option<Seq<char>>
    decreases lines.len(),
{
    if lines.len() == 0 {
        None
    } else {
        match passwd_line_name(lines[0], user_id) {
            Some(n) => Some(n),
            None => passwd_name(lines.drop_first(), user_id),
        }
    }
}

/// The name of the user `user_id` in the contents of `/etc/passwd`.
pub fn username_for_uid(passwd: &str, user_id: u32) -> (r: Option<String>)
    ensures
        match (r, passwd_name(text_lines(passwd@), user_id)) {
            (Some(s), Some(t)) => s@ == t,
            (None, None) => true,
            _ => false,
        },
{
    let lines = split_lines(passwd);
    let ghost all = views(lines@);
    let mut i: usize = 0;
    assert(all.skip(0) =~= all);
    while i < lines.len()
        invariant
            all == views(lines@),
            all == text_lines(passwd@),
            i <= lines@.len(),
            passwd_name(all, user_id) == passwd_name(all.skip(i as int), user_id),
        decreases lines.len() - i,
    {
        assert(all.skip(i as int)[0] == lines@[i as int]@);
        assert(all.skip(i as int).drop_first() =~= all.skip(i + 1));
        let fields = split_by_char(lines[i].as_str(), ':');
        if fields.len() >= 3 {
            let uid = chars_of(fields[2].as_str());
            let parsed = parse_u64_chars(uid.as_slice(), 0, uid.len());
            assert(uid@.subrange(0, uid@.len() as int) =~= uid@);
            match parsed {
                Some(v) => {
                    if v == user_id as u64 {
                        return Some(fields[0].clone());
                    }
                },
                None => {},
            }
        }
        i = i + 1;
    }
    None
}

/// The capabilities the daemon offers every authenticated client.
pub open spec fn offered_capabilities() -> Seq<CapabilityFlag> {
    seq![CapabilityFlag::ManagedExec, CapabilityFlag::ServiceDiscovery, CapabilityFlag::ViewerAttach]
}

/// The daemon's answer to a handshake from a peer authenticated as `auth`.
pub fn server_handshake(request: &HandshakeRequest, auth: DaemonAuthResult) -> (r:
    DaemonResponseEnvelope)
    ensures
        exists|caps: Vec<CapabilityFlag>, degraded: Vec<DegradedCapability>|
            caps@ == offered_capabilities() && degraded@.len() == 0 && r == handshake_outcome(
                *request,
                auth,
                caps,
                degraded,
            ),
        request.protocol_version != PROTOCOL_VERSION ==> r == DaemonResponseEnvelope::Handshake(
            HandshakeResponse::Rejected(
                (HandshakeRejected {
                    reason: HandshakeRejectReason::IncompatibleProtocolVersion {
                        expected: PROTOCOL_VERSION,
                        actual: request.protocol_version,
                    },
                }),
            ),
        ),
        request.protocol_version == PROTOCOL_VERSION && auth is AuthenticatedSameUser ==> (r matches
            DaemonResponseEnvelope::Handshake(HandshakeResponse::Accepted(a)) && a.protocol_version
            == PROTOCOL_VERSION && a.auth == auth && a.capabilities@ == offered_capabilities()
            && a.degraded_capabilities@.len() == 0),
        request.protocol_version == PROTOCOL_VERSION && auth is Unauthenticated ==> r
            == DaemonResponseEnvelope::Handshake(
            HandshakeResponse::Rejected(
                (HandshakeRejected {
                    reason: HandshakeRejectReason::UnauthenticatedPeer { reason: auth->reason },
                }),
            ),
        ),
{
    let mut caps: Vec<CapabilityFlag> = Vec::new();
    caps.push(CapabilityFlag::ManagedExec);
    caps.push(CapabilityFlag::ServiceDiscovery);
    caps.push(CapabilityFlag::ViewerAttach);
    let degraded: Vec<DegradedCapability> = Vec::new();
    assert(caps@ =~= offered_capabilities());
    let ghost c = caps;
    let ghost d = degraded;
    let r = evaluate_handshake(request, auth, caps, degraded);
    assert(c@ == offered_capabilities() && d@.len() == 0 && r == handshake_outcome(*request, auth, c, d));
    r
}

/// Whether the handshake let the client in; only then is a launch request
/// read.
pub fn handshake_accepted(response: &DaemonResponseEnvelope) -> (r: bool)
    ensures
        r == (response matches DaemonResponseEnvelope::Handshake(HandshakeResponse::Accepted(_))),
{
    match response {
        DaemonResponseEnvelope::Handshake(HandshakeResponse::Accepted(_)) => true,
        _ => false,
    }
}

/// The identifier of an RPC launch: the launch time in milliseconds since
/// the epoch and a per-process counter.
pub fn rpc_execution_id(epoch_millis: u64, counter: u64) -> (r: ExecutionId)
    ensures
        r@ == "exec-rpc-"@ + decimal(epoch_millis as nat) + "-"@ + decimal(counter as nat),
{
    let mut s = owned("exec-rpc-");
    s.append(u64_to_string(epoch_millis).as_str());
    s.append("-");
    s.append(u64_to_string(counter).as_str());
    ExecutionId::from_string(s)
}

/// The daemon's answer to an admitted launch.
pub fn launch_response(exec_id: ExecutionId) -> (r: DaemonResponseEnvelope)
    ensures
        r == DaemonResponseEnvelope::Launch(
            LaunchResponse { admission: LaunchAdmission::Admitted, exec_id },
        ),
{
    DaemonResponseEnvelope::Launch(LaunchResponse { admission: LaunchAdmission::Admitted, exec_id })
}

} // verus!
