//! Kimi tool-call ingress: which tool calls the daemon manages, and how the
//! host reads the daemon's answers. The socket exchange itself is the
//! caller's: it sends the requests built here and hands back the responses.

use vstd::prelude::*;
use crate::contracts::{
    DaemonAuthResult, DaemonRequestEnvelope, DaemonResponseEnvelope, HandshakeRejectReason,
    HandshakeRequest, HandshakeResponse, LaunchRequest, LaunchResponse, PROTOCOL_VERSION,
};
use crate::text::{owned, str_eq, u64_to_string, decimal};

verus! {

#[derive(Debug, Clone, PartialEq, Eq)]
pub struct KimiToolCall {
    pub tool_name: String,
    pub kind: ToolCallKind,
}

#[derive(Debug, Clone, PartialEq, Eq)]
pub enum ToolCallKind {
    AgentIssuedShell(ShellToolCall),
    InteractiveShellMode { command: String },
    Unsupported { detail: String },
}

#[derive(Debug, Clone, PartialEq, Eq)]
pub struct ShellToolCall {
    pub command: String,
}

#[derive(Debug, Clone, PartialEq, Eq)]
pub enum ManagedExecProof {
    Managed(ManagedLaunch),
    NonCoverage(NonCoverageNote),
}

#[derive(Debug, Clone, PartialEq, Eq)]
pub struct ManagedLaunch {
    pub exec_id: String,
    pub command: String,
    pub pre_spawn: bool,
}

#[derive(Debug, Clone, PartialEq, Eq)]
pub struct NonCoverageNote {
    pub reason: String,
}

/// Why a managed launch failed; the texts of socket and encoding failures
/// are what the failing library reported.
#[derive(Debug, Clone, PartialEq, Eq)]
pub enum IngressError {
    DaemonUnavailable(String),
    Io(String),
    Serialize(String),
    Decode(String),
    MissingDaemonResponse,
    UnexpectedDaemonResponse(String),
    DaemonProtocolVersionMismatch { expected: u32, actual: u32 },
    DaemonUnauthenticated { reason: String },
}

pub open spec fn ingress_error_text(e: IngressError) -> Seq<char> {
    match e {
        IngressError::DaemonUnavailable(m) => "managed mode failed: daemon unavailable: "@ + m@,
        IngressError::Io(m) => "managed mode failed during daemon IO: "@ + m@,
        IngressError::Serialize(m) => "managed mode failed to encode request: "@ + m@,
        IngressError::Decode(m) => "managed mode failed to decode response: "@ + m@,
        IngressError::MissingDaemonResponse => "managed mode failed: daemon closed without response"@,
        IngressError::UnexpectedDaemonResponse(c) => "managed mode failed: daemon sent unexpected response during "@
            + c@,
        IngressError::DaemonProtocolVersionMismatch { expected, actual } => "managed mode failed: daemon protocol version mismatch (expected "@
            + decimal(expected as nat) + ", got "@ + decimal(actual as nat) + ")"@,
        IngressError::DaemonUnauthenticated { reason } => "managed mode failed: daemon rejected peer authentication: "@
            + reason@,
    }
}

impl IngressError {
    /// The error as it is displayed.
    pub fn message(&self) -> (r: String)
        ensures
            r@ == ingress_error_text(*self),
    {
        match self {
            IngressError::DaemonUnavailable(m) => {
                let mut r = owned("managed mode failed: daemon unavailable: ");
                r.append(m.as_str());
                r
            },
            IngressError::Io(m) => {
                let mut r = owned("managed mode failed during daemon IO: ");
                r.append(m.as_str());
                r
            },
            IngressError::Serialize(m) => {
                let mut r = owned("managed mode failed to encode request: ");
                r.append(m.as_str());
                r
            },
            IngressError::Decode(m) => {
                let mut r = owned("managed mode failed to decode response: ");
                r.append(m.as_str());
                r
            },
            IngressError::MissingDaemonResponse => owned(
                "managed mode failed: daemon closed without response",
            ),
            IngressError::UnexpectedDaemonResponse(c) => {
                let mut r = owned("managed mode failed: daemon sent unexpected response during ");
                r.append(c.as_str());
                r
            },
            IngressError::DaemonProtocolVersionMismatch { expected, actual } => {
                let mut r = owned("managed mode failed: daemon protocol version mismatch (expected ");
                r.append(u64_to_string(*expected as u64).as_str());
                r.append(", got ");
                r.append(u64_to_string(*actual as u64).as_str());
                r.append(")");
                r
            },
            IngressError::DaemonUnauthenticated { reason } => {
                let mut r = owned("managed mode failed: daemon rejected peer authentication: ");
                r.append(reason.as_str());
                r
            },
        }
    }
}

/// What becomes of a tool call.
#[derive(Debug, Clone, PartialEq, Eq)]
pub enum IngressRoute {
    /// Launch `command` through the daemon.
    Manage { command: String },
    /// Not covered by managed execution.
    NotCovered(NonCoverageNote),
}

pub open spec fn shell_mode_note() -> Seq<char> {
    "Explicit non-coverage: Kimi Ctrl-X shell mode bypasses host-routable tool ingress; this proof covers only agent-issued Shell tool calls."@
}

pub open spec fn other_ingress_note() -> Seq<char> {
    "Explicit non-coverage: only host-routable Kimi Shell tool calls are proven in Task 1; all other ingress classes remain outside this proof boundary."@
}

/// Only an agent-issued call of the `Shell` tool is launched through the
/// daemon; Ctrl-X shell mode and every other call are reported as not
/// covered.
pub fn route_for(tool_call: KimiToolCall) -> (r: IngressRoute)
    ensures
        match tool_call.kind {
            ToolCallKind::AgentIssuedShell(shell) => if tool_call.tool_name@ == "Shell"@ {
                r == IngressRoute::Manage { command: shell.command }
            } else {
                r matches IngressRoute::NotCovered(n) && n.reason@ == other_ingress_note()
            },
            ToolCallKind::InteractiveShellMode { .. } => r matches IngressRoute::NotCovered(n)
                && n.reason@ == shell_mode_note(),
            ToolCallKind::Unsupported { .. } => r matches IngressRoute::NotCovered(n) && n.reason@
                == other_ingress_note(),
        },
{
    let KimiToolCall { tool_name, kind } = tool_call;
    match kind {
        ToolCallKind::AgentIssuedShell(shell) => {
            if str_eq(tool_name.as_str(), "Shell") {
                IngressRoute::Manage { command: shell.command }
            } else {
                IngressRoute::NotCovered(NonCoverageNote {
                    reason: owned(
                        "Explicit non-coverage: only host-routable Kimi Shell tool calls are proven in Task 1; all other ingress classes remain outside this proof boundary.",
                    ),
                })
            }
        },
        ToolCallKind::InteractiveShellMode { .. } => IngressRoute::NotCovered(NonCoverageNote {
            reason: owned(
                "Explicit non-coverage: Kimi Ctrl-X shell mode bypasses host-routable tool ingress; this proof covers only agent-issued Shell tool calls.",
            ),
        }),
        ToolCallKind::Unsupported { .. } => IngressRoute::NotCovered(NonCoverageNote {
            reason: owned(
                "Explicit non-coverage: only host-routable Kimi Shell tool calls are proven in Task 1; all other ingress classes remain outside this proof boundary.",
            ),
        }),
    }
}

/// The handshake the host opens with.
pub fn host_handshake() -> (r: DaemonRequestEnvelope)
    ensures
        r matches DaemonRequestEnvelope::Handshake(h) && h.protocol_version == PROTOCOL_VERSION
            && h.client_name@ == "execmanager-host-kimi"@,
{
    DaemonRequestEnvelope::Handshake(HandshakeRequest::new("execmanager-host-kimi"))
}

pub open spec fn unexpected(r: Result<(), IngressError>, during: Seq<char>) -> bool {
    r matches Err(IngressError::UnexpectedDaemonResponse(c)) && c@ == during
}

/// Whether the daemon's answer to the handshake lets the host launch: it
/// must accept, speak this protocol version, and have authenticated the host.
pub fn check_handshake(response: &DaemonResponseEnvelope) -> (r: Result<(), IngressError>)
    ensures
        match response {
            DaemonResponseEnvelope::Handshake(HandshakeResponse::Accepted(a)) => if a.protocol_version
                != PROTOCOL_VERSION {
                r == Err::<(), IngressError>(
                    IngressError::DaemonProtocolVersionMismatch {
                        expected: PROTOCOL_VERSION,
                        actual: a.protocol_version,
                    },
                )
            } else {
                match a.auth {
                    DaemonAuthResult::Unauthenticated { reason } => r == Err::<(), IngressError>(
                        IngressError::DaemonUnauthenticated { reason },
                    ),
                    DaemonAuthResult::AuthenticatedSameUser { .. } => r is Ok,
                }
            },
            DaemonResponseEnvelope::Handshake(HandshakeResponse::Rejected(j)) => match j.reason {
                HandshakeRejectReason::IncompatibleProtocolVersion { expected, actual } => r
                    == Err::<(), IngressError>(
                    IngressError::DaemonProtocolVersionMismatch { expected, actual },
                ),
                HandshakeRejectReason::UnauthenticatedPeer { reason } => r == Err::<
                    (),
                    IngressError,
                >(IngressError::DaemonUnauthenticated { reason }),
            },
            DaemonResponseEnvelope::Launch(_) => unexpected(r, "handshake"@),
        },
{
    match response {
        DaemonResponseEnvelope::Handshake(HandshakeResponse::Accepted(accepted)) => {
            if accepted.protocol_version != PROTOCOL_VERSION {
                return Err(
                    IngressError::DaemonProtocolVersionMismatch {
                        expected: PROTOCOL_VERSION,
                        actual: accepted.protocol_version,
                    },
                );
            }
            match &accepted.auth {
                DaemonAuthResult::Unauthenticated { reason } => Err(
                    IngressError::DaemonUnauthenticated { reason: reason.clone() },
                ),
                DaemonAuthResult::AuthenticatedSameUser { .. } => Ok(()),
            }
        },
        DaemonResponseEnvelope::Handshake(HandshakeResponse::Rejected(rejected)) => {
            match &rejected.reason {
                HandshakeRejectReason::IncompatibleProtocolVersion { expected, actual } => Err(
                    IngressError::DaemonProtocolVersionMismatch {
                        expected: *expected,
                        actual: *actual,
                    },
                ),
                HandshakeRejectReason::UnauthenticatedPeer { reason } => Err(
                    IngressError::DaemonUnauthenticated { reason: reason.clone() },
                ),
            }
        },
        DaemonResponseEnvelope::Launch(_) => Err(
            IngressError::UnexpectedDaemonResponse(owned("handshake")),
        ),
    }
}

/// The launch request for an agent-issued `Shell` call, made from the
/// host's working directory where it is known.
pub fn shell_launch_request(command: &str, working_dir: Option<String>) -> (r: DaemonRequestEnvelope)
    ensures
        r matches DaemonRequestEnvelope::Launch(l) && l.tool_name@ == "Shell"@ && l.command@
            == command@ && l.working_dir == working_dir && text_of(l.source) == Some("kimi:shell"@),
{
    DaemonRequestEnvelope::Launch(
        LaunchRequest {
            tool_name: owned("Shell"),
            command: owned(command),
            working_dir,
            source: Some(owned("kimi:shell")),
        },
    )
}

pub open spec fn text_of(o: Option<String>) -> Option<Seq<char>> {
    match o {
        Some(s) => Some(s@),
        None => None,
    }
}

pub fn execution_id_to_string(response: &LaunchResponse) -> (r: String)
    ensures
        r@ == response.exec_id@,
{
    owned(response.exec_id.as_str())
}

/// The proof of a managed launch, from the daemon's answer to the launch
/// request for `command`.
pub fn launch_proof(response: &DaemonResponseEnvelope, command: String) -> (r: Result<
    ManagedExecProof,
    IngressError,
>)
    ensures
        match response {
            DaemonResponseEnvelope::Launch(l) => r matches Ok(ManagedExecProof::Managed(m))
                && m.exec_id@ == l.exec_id@ && m.command == command && m.pre_spawn,
            DaemonResponseEnvelope::Handshake(_) => r matches Err(
                IngressError::UnexpectedDaemonResponse(c),
            ) && c@ == "launch"@,
        },
{
    match response {
        DaemonResponseEnvelope::Launch(launch) => Ok(
            ManagedExecProof::Managed(
                ManagedLaunch {
                    exec_id: execution_id_to_string(launch),
                    command,
                    pre_spawn: true,
                },
            ),
        ),
        DaemonResponseEnvelope::Handshake(_) => Err(
            IngressError::UnexpectedDaemonResponse(owned("launch")),
        ),
    }
}

} // verus!
