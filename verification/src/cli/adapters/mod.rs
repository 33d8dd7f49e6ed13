//! Integrations with coding agents: each installs a managed hook that hands
//! the agent's commands to the daemon.

pub mod kimi;

use vstd::prelude::*;
use crate::text::owned;

verus! {

#[derive(Debug, Clone, PartialEq, Eq)]
pub enum AdapterDetection {
    Detected { hook_path: String },
    NotDetected { reason: String },
}

#[derive(Debug, Clone, PartialEq, Eq)]
pub struct HookPlan {
    pub hook_path: String,
    pub managed_region_present: bool,
}

#[derive(Debug, Clone, PartialEq, Eq)]
pub enum AdapterError {
    /// Reading or writing the hook failed; the message describes the failure.
    Io { message: String },
    /// The managed region was changed by someone else.
    Conflict { message: String },
}

impl AdapterError {
    pub fn conflict(message: &str) -> (r: Self)
        ensures
            r matches AdapterError::Conflict { message: m } && m@ == message@,
    {
        AdapterError::Conflict { message: owned(message) }
    }

    /// The error as it is displayed.
    pub fn message(&self) -> (r: String)
        ensures
            r@ == (match self {
                AdapterError::Io { message } => "adapter IO error: "@ + message@,
                AdapterError::Conflict { message } => message@,
            }),
    {
        match self {
            AdapterError::Io { message } => {
                let mut r = owned("adapter IO error: ");
                r.append(message.as_str());
                r
            },
            AdapterError::Conflict { message } => owned(message.as_str()),
        }
    }
}

} // verus!
