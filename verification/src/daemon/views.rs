//! What the daemon's projection shows of an execution, its services, ports
//! and reconciliation ghosts, and the read-only handle a viewer attaches to.

use vstd::prelude::*;
use crate::contracts::{ExecutionId, ProjectionState};
use crate::daemon::launch::{ExecutionMode, LaunchPolicyOutcome, LifecycleStage};
use crate::daemon::ownership::RuntimeOwnership;
use crate::daemon::records::BlobReference;
use crate::platform::GovernanceSnapshot;

verus! {

#[derive(Debug, Clone, PartialEq, Eq)]
pub struct ExecutionView {
    pub exec_id: ExecutionId,
    pub state: ProjectionState,
    pub observed_state: ProjectionState,
    pub command: String,
    pub original_command: String,
    pub rewritten_command: Option<String>,
    pub policy_outcome: Option<LaunchPolicyOutcome>,
    pub stdout: Option<BlobReference>,
    pub stderr: Option<BlobReference>,
    pub mode: Option<ExecutionMode>,
    pub lifecycle: Vec<LifecycleStage>,
    pub ownership: Option<RuntimeOwnership>,
    pub resource_governance: Option<GovernanceSnapshot>,
    pub service_override: Option<ProjectionState>,
}

/// The model of an execution view: its fields, with the lifecycle as a
/// sequence.
pub struct ExecutionModel {
    pub exec_id: ExecutionId,
    pub state: ProjectionState,
    pub observed_state: ProjectionState,
    pub command: Seq<char>,
    pub original_command: Seq<char>,
    pub rewritten_command: Option<String>,
    pub policy_outcome: Option<LaunchPolicyOutcome>,
    pub stdout: Option<BlobReference>,
    pub stderr: Option<BlobReference>,
    pub mode: Option<ExecutionMode>,
    pub lifecycle: Seq<LifecycleStage>,
    pub ownership: Option<RuntimeOwnership>,
    pub resource_governance: Option<GovernanceSnapshot>,
    pub service_override: Option<ProjectionState>,
}

impl View for ExecutionView {
    type V = ExecutionModel;

    open spec fn view(&self) -> ExecutionModel {
        ExecutionModel {
            exec_id: self.exec_id,
            state: self.state,
            observed_state: self.observed_state,
            command: self.command@,
            original_command: self.original_command@,
            rewritten_command: self.rewritten_command,
            policy_outcome: self.policy_outcome,
            stdout: self.stdout,
            stderr: self.stderr,
            mode: self.mode,
            lifecycle: self.lifecycle@,
            ownership: self.ownership,
            resource_governance: self.resource_governance,
            service_override: self.service_override,
        }
    }
}

#[derive(Debug, Clone, PartialEq, Eq)]
pub struct ServiceView {
    pub name: String,
    pub state: ProjectionState,
    pub port_ids: Vec<String>,
}

#[derive(Debug, Clone, PartialEq, Eq)]
pub struct PortView {
    pub port_id: String,
    pub port: u16,
    pub protocol: String,
    pub state: ProjectionState,
}

#[derive(Debug, Clone, PartialEq, Eq)]
pub struct GhostView {
    pub state: ProjectionState,
    pub detail: String,
}

#[derive(Debug, Clone, PartialEq, Eq)]
pub struct ObservedListener {
    pub port_id: String,
    pub port: u16,
    pub protocol: String,
}

#[derive(Debug, Clone, PartialEq, Eq)]
pub struct RuntimeObservation {
    pub service_name: String,
    pub listeners: Vec<ObservedListener>,
}

#[derive(Debug, Clone, PartialEq, Eq)]
pub struct ViewerHandle {
    pub exec_id: ExecutionId,
    pub stdout: Option<BlobReference>,
    pub stderr: Option<BlobReference>,
    pub journal_path: Option<String>,
}

#[derive(Debug, Clone, PartialEq, Eq)]
pub enum ViewerHandleError {
    UnknownExecution { exec_id: ExecutionId },
    Unavailable { exec_id: ExecutionId, reason: String },
}

fn copy_blob(b: &Option<BlobReference>) -> (r: Option<BlobReference>)
    ensures
        r == *b,
{
    match b {
        Some(x) => Some(x.clone()),
        None => None,
    }
}

impl ViewerHandle {
    /// A viewer may only attach to an execution the daemon holds an ownership
    /// proof for; the handle exposes its retained output, read-only.
    pub fn from_execution(execution: &ExecutionView, journal_path: Option<String>) -> (r: Result<
        Self,
        ViewerHandleError,
    >)
        ensures
            r is Ok <==> execution.ownership is Some,
            r matches Ok(h) ==> h.exec_id == execution.exec_id && h.stdout == execution.stdout
                && h.stderr == execution.stderr && h.journal_path == journal_path,
            r matches Err(e) ==> (e matches ViewerHandleError::Unavailable { exec_id, reason }
                && exec_id == execution.exec_id && reason@
                == "execution has no daemon-owned runtime ownership proof"@),
    {
        if execution.ownership.is_none() {
            return Err(
                ViewerHandleError::Unavailable {
                    exec_id: execution.exec_id.duplicate(),
                    reason: "execution has no daemon-owned runtime ownership proof".to_owned(),
                },
            );
        }
        Ok(
            ViewerHandle {
                exec_id: execution.exec_id.duplicate(),
                stdout: copy_blob(&execution.stdout),
                stderr: copy_blob(&execution.stderr),
                journal_path,
            },
        )
    }
}


pub open spec fn viewer_handle_error_text(e: ViewerHandleError) -> Seq<char> {
    match e {
        ViewerHandleError::UnknownExecution { exec_id } => "no managed execution found for "@
            + exec_id@,
        ViewerHandleError::Unavailable { exec_id, reason } => "viewer handle for "@ + exec_id@
            + " is unavailable: "@ + reason@,
    }
}

impl ViewerHandleError {
    /// The error as it is displayed.
    pub fn message(&self) -> (r: String)
        ensures
            r@ == viewer_handle_error_text(*self),
    {
        match self {
            ViewerHandleError::UnknownExecution { exec_id } => {
                let mut r = "no managed execution found for ".to_owned();
                r.append(exec_id.as_str());
                r
            },
            ViewerHandleError::Unavailable { exec_id, reason } => {
                let mut r = "viewer handle for ".to_owned();
                r.append(exec_id.as_str());
                r.append(" is unavailable: ");
                r.append(reason.as_str());
                r
            },
        }
    }
}

} // verus!
