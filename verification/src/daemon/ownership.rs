//! Proof that the daemon owns a runtime: which process group it may signal,
//! and when an observed process is the one it launched.

use vstd::prelude::*;
use crate::contracts::ExecutionId;

verus! {

#[derive(Debug, Clone, Copy, PartialEq, Eq, Structural)]
pub struct RuntimeOwnership {
    pub root_pid: u32,
    pub process_group_id: u32,
    pub session_id: Option<u32>,
    pub start_time_ticks: Option<u64>,
}

#[derive(Debug, Clone, Copy, PartialEq, Eq, Structural)]
pub struct ManagedCleanupTarget {
    pub root_pid: u32,
    pub process_group_id: u32,
}

#[derive(Debug, Clone, PartialEq, Eq)]
pub enum OwnershipError {
    InsufficientProof { exec_id: Option<ExecutionId>, reason: String },
}

#[derive(Debug, Clone, Copy, PartialEq, Eq, Structural)]
pub struct ObservedProcess {
    pub root_pid: u32,
    pub process_group_id: u32,
    pub session_id: Option<u32>,
    pub start_time_ticks: Option<u64>,
}

#[derive(Debug, Clone, PartialEq, Eq)]
pub struct ReconcileSummary {
    pub unknown_processes: Vec<ObservedProcess>,
}

impl RuntimeOwnership {
    /// A cleanup target needs both a root pid and a process group id.
    pub fn cleanup_target(&self) -> (r: Result<ManagedCleanupTarget, OwnershipError>)
        ensures
            (r is Ok) <==> (self.root_pid != 0 && self.process_group_id != 0),
            r matches Ok(t) ==> t.root_pid == self.root_pid && t.process_group_id
                == self.process_group_id,
            self.root_pid == 0 ==> (r matches Err(OwnershipError::InsufficientProof { exec_id, reason })
                && exec_id is None && reason@ == "managed root pid is missing"@),
            self.root_pid != 0 && self.process_group_id == 0 ==> (r matches Err(
                OwnershipError::InsufficientProof { exec_id, reason },
            ) && exec_id is None && reason@ == "managed process group id is missing"@),
    {
        if self.root_pid == 0 {
            return Err(
                OwnershipError::InsufficientProof {
                    exec_id: None,
                    reason: "managed root pid is missing".to_owned(),
                },
            );
        }
        if self.process_group_id == 0 {
            return Err(
                OwnershipError::InsufficientProof {
                    exec_id: None,
                    reason: "managed process group id is missing".to_owned(),
                },
            );
        }
        Ok(ManagedCleanupTarget { root_pid: self.root_pid, process_group_id: self.process_group_id })
    }
}

/// An observed process is the launched one when its root pid is the same and
/// every recorded piece of identity that both sides know agrees.
pub open spec fn ownership_matches_spec(ownership: RuntimeOwnership, observed: ObservedProcess) -> bool {
    &&& ownership.root_pid == observed.root_pid
    &&& (ownership.process_group_id == 0 || ownership.process_group_id
        == observed.process_group_id)
    &&& (ownership.start_time_ticks matches Some(t) ==> observed.start_time_ticks == Some(t))
    &&& (ownership.session_id is Some && observed.session_id is Some ==> ownership.session_id
        == observed.session_id)
}

pub fn ownership_matches(ownership: &RuntimeOwnership, observed: &ObservedProcess) -> (r: bool)
    ensures
        r == ownership_matches_spec(*ownership, *observed),
{
    if ownership.root_pid != observed.root_pid {
        return false;
    }
    if ownership.process_group_id != 0 && ownership.process_group_id != observed.process_group_id {
        return false;
    }
    if let Some(start_time_ticks) = ownership.start_time_ticks {
        match observed.start_time_ticks {
            Some(t) => {
                if t != start_time_ticks {
                    return false;
                }
            },
            None => {
                return false;
            },
        }
    }
    if let (Some(expected_session), Some(observed_session)) = (
        ownership.session_id,
        observed.session_id,
    ) {
        if expected_session != observed_session {
            return false;
        }
    }
    true
}


pub open spec fn ownership_error_text(e: OwnershipError) -> Seq<char> {
    match e {
        OwnershipError::InsufficientProof { exec_id, reason } => match exec_id {
            Some(id) => "insufficient ownership proof for "@ + id@ + ": "@ + reason@,
            None => "insufficient ownership proof: "@ + reason@,
        },
    }
}

impl OwnershipError {
    /// The error as it is displayed.
    pub fn message(&self) -> (r: String)
        ensures
            r@ == ownership_error_text(*self),
    {
        match self {
            OwnershipError::InsufficientProof { exec_id, reason } => match exec_id {
                Some(id) => {
                    let mut r = "insufficient ownership proof for ".to_owned();
                    r.append(id.as_str());
                    r.append(": ");
                    r.append(reason.as_str());
                    r
                },
                None => {
                    let mut r = "insufficient ownership proof: ".to_owned();
                    r.append(reason.as_str());
                    r
                },
            },
        }
    }
}

} // verus!
