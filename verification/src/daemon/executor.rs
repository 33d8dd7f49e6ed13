//! The journal entries of a managed execution, from the launch request to
//! the exit record. Spawning the process, watching its sockets and waiting
//! for it are the caller's; what gets journaled at each step, and when a
//! launch stops, is decided here.

use vstd::prelude::*;
use crate::contracts::{ExecutionId, ProjectionState};
use crate::daemon::journal::JournalEvent;
use crate::daemon::launch::{
    ExecutionMode, LaunchPolicyOutcome, ManagedExecError, ManagedLaunchSpec, rendered,
};
use crate::daemon::ownership::RuntimeOwnership;
use crate::daemon::policy::PolicyEvaluation;
use crate::daemon::records::{
    EnvironmentSnapshotRecord, HistorySnapshotManifest, redact_command_string_for_persistence,
    redacted_command,
};
use crate::daemon::views::{ObservedListener, PortView, RuntimeObservation, ServiceView};
use crate::paths::{join_path, path_join, path_parent};
use crate::platform::GovernanceSnapshot;
use crate::text::{owned, str_eq, views};

verus! {

/// A launch that may go ahead, and the record of its request.
#[derive(Debug)]
pub struct LaunchStart {
    pub spec: ManagedLaunchSpec,
    pub persisted_original_command: String,
    pub requested: JournalEvent,
}

/// Interactive (PTY) launches are refused; any other launch is journaled as
/// requested, with its command redacted for persistence.
pub fn begin_launch(spec: ManagedLaunchSpec) -> (r: Result<LaunchStart, ManagedExecError>)
    ensures
        match r {
            Err(e) => e matches ManagedExecError::UnsupportedExecutionMode { requested, reason }
                && requested == ExecutionMode::InteractivePty && reason@
                == "PTY-backed interactive execution is not supported yet"@ && spec.mode
                == ExecutionMode::InteractivePty,
            Ok(s) => s.requested matches JournalEvent::LaunchRequested {
                exec_id,
                original_command,
                mode,
            } && exec_id == spec.exec_id && original_command@ == redacted_command(
                spec.original_command@,
            ) && mode == spec.mode && spec.mode != ExecutionMode::InteractivePty && s.spec == spec
                && s.persisted_original_command@ == redacted_command(spec.original_command@),
        },
{
    match spec.mode {
        ExecutionMode::InteractivePty => {
            return Err(
                ManagedExecError::UnsupportedExecutionMode {
                    requested: ExecutionMode::InteractivePty,
                    reason: owned("PTY-backed interactive execution is not supported yet"),
                },
            );
        },
        ExecutionMode::BatchPipes => {},
    }
    let persisted = redact_command_string_for_persistence(spec.original_command.as_str());
    let requested = JournalEvent::LaunchRequested {
        exec_id: spec.exec_id.duplicate(),
        original_command: persisted.clone(),
        mode: spec.mode,
    };
    Ok(LaunchStart { spec, persisted_original_command: persisted, requested })
}

/// A launch that the policy admitted: the specification to spawn, its
/// command line, and the record of the admission.
#[derive(Debug)]
pub struct Admission {
    pub spec: ManagedLaunchSpec,
    pub command: String,
    pub persisted_rewritten_command: Option<String>,
    pub admitted: JournalEvent,
}

pub open spec fn redacted_opt(c: Option<String>) -> Option<Seq<char>> {
    match c {
        Some(s) => Some(redacted_command(s@)),
        None => None,
    }
}

pub open spec fn text_opt(c: Option<String>) -> Option<Seq<char>> {
    match c {
        Some(s) => Some(s@),
        None => None,
    }
}

/// The record of the policy's decision, and then either the admission or,
/// where the policy denied the launch, the error the launch ends with.
pub fn admission_for(evaluation: PolicyEvaluation) -> (r: (JournalEvent, Result<Admission, ManagedExecError>))
    ensures
        r.0 matches JournalEvent::LaunchPolicyEvaluated { exec_id, rewritten_command, outcome }
            && exec_id == evaluation.effective_spec.exec_id && text_opt(rewritten_command)
            == redacted_opt(evaluation.rewritten_command) && outcome == evaluation.outcome,
        match evaluation.outcome {
            LaunchPolicyOutcome::Denied { policy, reason } => r.1 == Err::<
                Admission,
                ManagedExecError,
            >(ManagedExecError::PolicyDenied { policy, reason }),
            _ => match r.1 {
                Ok(a) => a.spec == evaluation.effective_spec && a.command@ == rendered(
                    evaluation.effective_spec.program@,
                    views(evaluation.effective_spec.args@),
                ) && text_opt(a.persisted_rewritten_command) == redacted_opt(
                    evaluation.rewritten_command,
                ) && a.admitted == (JournalEvent::LaunchAdmitted {
                    exec_id: evaluation.effective_spec.exec_id,
                    mode: evaluation.effective_spec.mode,
                }),
                Err(_) => false,
            },
        },
{
    let PolicyEvaluation { effective_spec, rewritten_command, outcome } = evaluation;
    let persisted = match &rewritten_command {
        Some(c) => Some(redact_command_string_for_persistence(c.as_str())),
        None => None,
    };
    let event = JournalEvent::LaunchPolicyEvaluated {
        exec_id: effective_spec.exec_id.duplicate(),
        rewritten_command: match &persisted {
            Some(p) => Some(p.clone()),
            None => None,
        },
        outcome: outcome.clone(),
    };
    match outcome {
        LaunchPolicyOutcome::Denied { policy, reason } => (
            event,
            Err(ManagedExecError::PolicyDenied { policy, reason }),
        ),
        _ => {
            let command = effective_spec.rendered_command();
            let admitted = JournalEvent::LaunchAdmitted {
                exec_id: effective_spec.exec_id.duplicate(),
                mode: effective_spec.mode,
            };
            (
                event,
                Ok(
                    Admission {
                        spec: effective_spec,
                        command,
                        persisted_rewritten_command: persisted,
                        admitted,
                    },
                ),
            )
        },
    }
}

/// The records of a spawned process: the process with its ownership proof,
/// and its resource governance.
pub fn spawned_events(
    exec_id: &ExecutionId,
    mode: ExecutionMode,
    ownership: RuntimeOwnership,
    snapshot: GovernanceSnapshot,
) -> (r: (JournalEvent, JournalEvent))
    ensures
        r.0 == (JournalEvent::ProcessSpawned {
            exec_id: *exec_id,
            state: ProjectionState::Managed,
            mode,
            ownership,
            stdout: None,
            stderr: None,
        }),
        r.1 == (JournalEvent::ResourceGovernanceRecorded { exec_id: *exec_id, snapshot }),
{
    (
        JournalEvent::ProcessSpawned {
            exec_id: exec_id.duplicate(),
            state: ProjectionState::Managed,
            mode,
            ownership,
            stdout: None,
            stderr: None,
        },
        JournalEvent::ResourceGovernanceRecorded { exec_id: exec_id.duplicate(), snapshot },
    )
}

pub open spec fn port_event_for(exec_id: ExecutionId, l: ObservedListener) -> JournalEvent {
    JournalEvent::PortObserved {
        exec_id,
        port: PortView {
            port_id: l.port_id,
            port: l.port,
            protocol: l.protocol,
            state: ProjectionState::Service,
        },
    }
}

/// The records of an observation: a port for each listener, then the
/// service that owns them all.
pub open spec fn observation_ok(
    exec_id: ExecutionId,
    listeners: Seq<ObservedListener>,
    events: Seq<JournalEvent>,
    observation: RuntimeObservation,
) -> bool {
    &&& events.len() == listeners.len() + 1
    &&& forall|i: int| 0 <= i < listeners.len() ==> #[trigger] events[i] == port_event_for(exec_id, listeners[i])
    &&& match events.last() {
        JournalEvent::ServiceObserved { exec_id: e, service } => e == exec_id && service.name@
            == "observed_service"@ && service.state == ProjectionState::Service
            && service.port_ids@.len() == listeners.len() && forall|i: int|
            0 <= i < listeners.len() ==> #[trigger] service.port_ids@[i] == listeners[i].port_id,
        _ => false,
    }
    &&& observation.service_name@ == "observed_service"@
    &&& observation.listeners@ == listeners
}

/// What an observation of listening sockets records: a port for each
/// listener, then the service that owns them all. Nothing is recorded
/// before a listener is seen.
pub fn observation_events(exec_id: &ExecutionId, listeners: Vec<ObservedListener>) -> (r: Option<
    (Vec<JournalEvent>, RuntimeObservation),
>)
    ensures
        match r {
            None => listeners@.len() == 0,
            Some((events, observation)) => listeners@.len() > 0 && observation_ok(
                *exec_id,
                listeners@,
                events@,
                observation,
            ),
        },
{
    if listeners.len() == 0 {
        return None;
    }
    let mut events: Vec<JournalEvent> = Vec::new();
    let mut port_ids: Vec<String> = Vec::new();
    let mut i: usize = 0;
    while i < listeners.len()
        invariant
            i <= listeners@.len(),
            events@.len() == i,
            port_ids@.len() == i,
            forall|k: int| 0 <= k < i ==> #[trigger] events@[k] == port_event_for(*exec_id, listeners@[k]),
            forall|k: int| 0 <= k < i ==> #[trigger] port_ids@[k] == listeners@[k].port_id,
        decreases listeners.len() - i,
    {
        let l = &listeners[i];
        let port_id = l.port_id.clone();
        events.push(
            JournalEvent::PortObserved {
                exec_id: exec_id.duplicate(),
                port: PortView {
                    port_id: port_id.clone(),
                    port: l.port,
                    protocol: l.protocol.clone(),
                    state: ProjectionState::Service,
                },
            },
        );
        port_ids.push(port_id);
        i = i + 1;
    }
    let service = ServiceView {
        name: owned("observed_service"),
        state: ProjectionState::Service,
        port_ids,
    };
    events.push(JournalEvent::ServiceObserved { exec_id: exec_id.duplicate(), service });
    Some((events, RuntimeObservation { service_name: owned("observed_service"), listeners }))
}

/// The records of an exit: the execution is marked exited, then its history
/// snapshot is kept.
pub fn exit_events(
    exec_id: &ExecutionId,
    env_snapshot: EnvironmentSnapshotRecord,
    manifest: HistorySnapshotManifest,
) -> (r: (JournalEvent, JournalEvent))
    ensures
        r.0 == (JournalEvent::ExecutionStateUpdated { exec_id: *exec_id, state: ProjectionState::Exited }),
        r.1 matches JournalEvent::HistorySnapshotRecorded { exec_id: e, env_snapshot: s, manifest: m }
            && e == *exec_id && s == env_snapshot && *m == manifest,
{
    (
        JournalEvent::ExecutionStateUpdated {
            exec_id: exec_id.duplicate(),
            state: ProjectionState::Exited,
        },
        JournalEvent::HistorySnapshotRecorded {
            exec_id: exec_id.duplicate(),
            env_snapshot,
            manifest: Box::new(manifest),
        },
    )
}

/// The directory beside the journal where an execution's output is spooled.
pub open spec fn spool_root_text(journal_path: Seq<char>, exec_id: Seq<char>) -> Seq<char> {
    let base = if journal_path.len() == 0 || journal_path == "/"@ {
        "."@
    } else {
        path_parent(journal_path)
    };
    path_join(path_join(base, "blobs"@), exec_id)
}

pub fn spool_root_for(journal_path: &str, exec_id: &ExecutionId) -> (r: String)
    ensures
        r@ == spool_root_text(journal_path@, exec_id@),
{
    let base = if journal_path.unicode_len() == 0 || str_eq(journal_path, "/") {
        owned(".")
    } else {
        let (parent, _) = crate::paths::split_path(journal_path);
        parent
    };
    let blobs = join_path(base.as_str(), "blobs");
    join_path(blobs.as_str(), exec_id.as_str())
}

} // verus!
