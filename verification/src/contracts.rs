//! Shared wire contracts between the daemon and its clients: the handshake,
//! launch requests, and the vocabulary of runtime states.

use vstd::prelude::*;

verus! {

pub const PROTOCOL_VERSION: u32 = 1;

#[derive(Debug, Clone, PartialEq, Eq)]
pub struct ExecutionId(pub String);

impl View for ExecutionId {
    type V = Seq<char>;

    open spec fn view(&self) -> Seq<char> {
        self.0@
    }
}

impl ExecutionId {
    pub fn new(value: &str) -> (id: Self)
        ensures
            id@ == value@,
    {
        ExecutionId(value.to_owned())
    }

    pub fn from_string(value: String) -> (id: Self)
        ensures
            id.0 == value,
    {
        ExecutionId(value)
    }

    pub fn as_str(&self) -> (s: &str)
        ensures
            s@ == self@,
    {
        self.0.as_str()
    }

    /// A copy of the identifier.
    pub fn duplicate(&self) -> (r: Self)
        ensures
            r == *self,
    {
        ExecutionId(self.0.clone())
    }

    pub fn same_as(&self, other: &ExecutionId) -> (r: bool)
        ensures
            r == (self@ == other@),
    {
        self.0 == other.0
    }
}

#[derive(Debug, Clone, PartialEq, Eq)]
pub enum DaemonRequestEnvelope {
    Handshake(HandshakeRequest),
    Launch(LaunchRequest),
    Snapshot(SnapshotRequest),
    Cleanup(CleanupRequest),
    Viewer(ViewerRequest),
}

#[derive(Debug, Clone, PartialEq, Eq)]
pub enum DaemonResponseEnvelope {
    Handshake(HandshakeResponse),
    Launch(LaunchResponse),
}

#[derive(Debug, Clone, PartialEq, Eq)]
pub struct HandshakeRequest {
    pub protocol_version: u32,
    pub client_name: String,
}

impl HandshakeRequest {
    pub fn new(client_name: &str) -> (r: Self)
        ensures
            r.protocol_version == PROTOCOL_VERSION,
            r.client_name@ == client_name@,
    {
        HandshakeRequest { protocol_version: PROTOCOL_VERSION, client_name: client_name.to_owned() }
    }

    pub fn protocol_version() -> (v: u32)
        ensures
            v == PROTOCOL_VERSION,
    {
        PROTOCOL_VERSION
    }
}

#[derive(Debug, Clone, PartialEq, Eq)]
pub enum HandshakeResponse {
    Accepted(HandshakeAccepted),
    Rejected(HandshakeRejected),
}

#[derive(Debug, Clone, PartialEq, Eq)]
pub struct HandshakeAccepted {
    pub protocol_version: u32,
    pub auth: DaemonAuthResult,
    pub capabilities: Vec<CapabilityFlag>,
    pub degraded_capabilities: Vec<DegradedCapability>,
}

#[derive(Debug, Clone, PartialEq, Eq)]
pub struct HandshakeRejected {
    pub reason: HandshakeRejectReason,
}

#[derive(Debug, Clone, PartialEq, Eq)]
pub enum HandshakeRejectReason {
    IncompatibleProtocolVersion { expected: u32, actual: u32 },
    UnauthenticatedPeer { reason: String },
}

#[derive(Debug, Clone, PartialEq, Eq)]
pub enum DaemonAuthResult {
    AuthenticatedSameUser { peer: PeerIdentity },
    Unauthenticated { reason: String },
}

#[derive(Debug, Clone, PartialEq, Eq)]
pub struct PeerIdentity {
    pub user_id: u32,
    pub process_id: Option<u32>,
    pub username: Option<String>,
}

#[derive(Debug, Clone, Copy, PartialEq, Eq, Structural)]
pub enum CapabilityFlag {
    ManagedExec,
    ResourceGovernance,
    ServiceDiscovery,
    SnapshotRead,
    CleanupManagedTree,
    ViewerAttach,
}

#[derive(Debug, Clone, Copy, PartialEq, Eq, Structural)]
pub struct DegradedCapability {
    pub capability: CapabilityFlag,
    pub reason: DegradedReason,
}

#[derive(Debug, Clone, Copy, PartialEq, Eq, Structural)]
pub enum DegradedReason {
    UnsupportedPlatform,
    ObservationOnly,
    Unavailable,
}

#[derive(Debug, Clone, PartialEq, Eq)]
pub struct LaunchRequest {
    pub tool_name: String,
    pub command: String,
    pub working_dir: Option<String>,
    pub source: Option<String>,
}

#[derive(Debug, Clone, PartialEq, Eq)]
pub struct LaunchResponse {
    pub admission: LaunchAdmission,
    pub exec_id: ExecutionId,
}

#[derive(Debug, Clone, Copy, PartialEq, Eq, Structural)]
pub enum LaunchAdmission {
    Admitted,
}

#[derive(Debug, Clone, PartialEq, Eq)]
pub struct SnapshotRequest {
    pub exec_id: ExecutionId,
}

#[derive(Debug, Clone, PartialEq, Eq)]
pub struct CleanupRequest {
    pub exec_id: ExecutionId,
}

#[derive(Debug, Clone, PartialEq, Eq)]
pub struct ViewerRequest {
    pub exec_id: ExecutionId,
}

#[derive(Debug, Clone, Copy, PartialEq, Eq, Structural)]
pub enum ProjectionState {
    Managed,
    Service,
    ShortTask,
    Missing,
    Orphaned,
    Escaped,
    Detached,
    Exited,
    Unknown,
}

#[derive(Debug, Clone, Copy, PartialEq, Eq, Structural)]
pub enum RedactionMarker {
    Plaintext,
    Redacted,
    Omitted,
}

#[derive(Debug, Clone, Copy, PartialEq, Eq, Structural)]
pub enum RetentionClass {
    MetadataLongLived,
    BlobEphemeral,
    BlobRetained,
}

/// The daemon's answer to a handshake: a version mismatch is rejected first,
/// then an unauthenticated peer; otherwise the handshake is accepted with the
/// offered capabilities.
pub open spec fn handshake_outcome(
    request: HandshakeRequest,
    auth: DaemonAuthResult,
    capabilities: Vec<CapabilityFlag>,
    degraded_capabilities: Vec<DegradedCapability>,
) -> DaemonResponseEnvelope {
    if request.protocol_version != PROTOCOL_VERSION {
        DaemonResponseEnvelope::Handshake(
            HandshakeResponse::Rejected(
                HandshakeRejected {
                    reason: HandshakeRejectReason::IncompatibleProtocolVersion {
                        expected: PROTOCOL_VERSION,
                        actual: request.protocol_version,
                    },
                },
            ),
        )
    } else {
        match auth {
            DaemonAuthResult::AuthenticatedSameUser { .. } => DaemonResponseEnvelope::Handshake(
                HandshakeResponse::Accepted(
                    HandshakeAccepted {
                        protocol_version: PROTOCOL_VERSION,
                        auth,
                        capabilities,
                        degraded_capabilities,
                    },
                ),
            ),
            DaemonAuthResult::Unauthenticated { reason } => DaemonResponseEnvelope::Handshake(
                HandshakeResponse::Rejected(
                    HandshakeRejected { reason: HandshakeRejectReason::UnauthenticatedPeer { reason } },
                ),
            ),
        }
    }
}

pub fn evaluate_handshake(
    request: &HandshakeRequest,
    auth: DaemonAuthResult,
    capabilities: Vec<CapabilityFlag>,
    degraded_capabilities: Vec<DegradedCapability>,
) -> (r: DaemonResponseEnvelope)
    ensures
        r == handshake_outcome(*request, auth, capabilities, degraded_capabilities),
{
    let response = if request.protocol_version != PROTOCOL_VERSION {
        HandshakeResponse::Rejected(
            HandshakeRejected {
                reason: HandshakeRejectReason::IncompatibleProtocolVersion {
                    expected: PROTOCOL_VERSION,
                    actual: request.protocol_version,
                },
            },
        )
    } else {
        match auth {
            DaemonAuthResult::AuthenticatedSameUser { peer } => HandshakeResponse::Accepted(
                HandshakeAccepted {
                    protocol_version: PROTOCOL_VERSION,
                    auth: DaemonAuthResult::AuthenticatedSameUser { peer },
                    capabilities,
                    degraded_capabilities,
                },
            ),
            DaemonAuthResult::Unauthenticated { reason } => HandshakeResponse::Rejected(
                HandshakeRejected { reason: HandshakeRejectReason::UnauthenticatedPeer { reason } },
            ),
        }
    };
    DaemonResponseEnvelope::Handshake(response)
}

/// A handshake is accepted exactly when the client speaks the daemon's
/// protocol version and its peer was authenticated as the same user; an
/// accepted handshake always carries the daemon's protocol version.
pub proof fn lemma_handshake_accepts_only_compatible_authenticated(
    request: HandshakeRequest,
    auth: DaemonAuthResult,
    capabilities: Vec<CapabilityFlag>,
    degraded_capabilities: Vec<DegradedCapability>,
)
    ensures
        (handshake_outcome(request, auth, capabilities, degraded_capabilities) matches DaemonResponseEnvelope::Handshake(
            HandshakeResponse::Accepted(a),
        ) && a.protocol_version == PROTOCOL_VERSION) <==> (request.protocol_version
            == PROTOCOL_VERSION && auth is AuthenticatedSameUser),
{
}

} // verus!
