//! Viewers attach read-only to an execution through a handle that the daemon
//! handed out; they never own the execution.

use vstd::prelude::*;
use crate::contracts::{ExecutionId, ViewerRequest};
use crate::daemon::views::ViewerHandle;
use crate::text::owned;

verus! {

#[derive(Debug, Clone, PartialEq, Eq)]
pub struct ViewerAttachment {
    pub exec_id: ExecutionId,
    pub ownership: ViewerOwnership,
}

#[derive(Debug, Clone, Copy, PartialEq, Eq, Structural)]
pub enum ViewerOwnership {
    AttachedReadOnly,
}

#[derive(Debug, Clone, PartialEq, Eq)]
pub enum ViewerAttachError {
    RequestHandleMismatch { requested_exec_id: ExecutionId, handle_exec_id: ExecutionId },
}

impl ViewerAttachError {
    /// The error as it is displayed.
    pub fn message(&self) -> (r: String)
        ensures
            match self {
                ViewerAttachError::RequestHandleMismatch { requested_exec_id, handle_exec_id } => r@
                    == "viewer request "@ + requested_exec_id@ + " does not match daemon handle "@
                    + handle_exec_id@,
            },
    {
        match self {
            ViewerAttachError::RequestHandleMismatch { requested_exec_id, handle_exec_id } => {
                let mut r = owned("viewer request ");
                r.append(requested_exec_id.as_str());
                r.append(" does not match daemon handle ");
                r.append(handle_exec_id.as_str());
                r
            },
        }
    }
}

/// A viewer front end: it attaches to the execution that a daemon handle
/// names.
pub trait ViewerAdapter {
    fn attach(&mut self, handle: &ViewerHandle) -> Result<ViewerAttachment, ViewerAttachError>;
}

/// Attaches `adapter` to the execution of `handle`, only where the handle
/// is for the execution that was requested: then the adapter is called once
/// with `handle` and its answer is returned as it is. Otherwise the adapter
/// is not called and the mismatch is reported.
pub fn attach_viewer<A: ViewerAdapter>(
    request: &ViewerRequest,
    handle: &ViewerHandle,
    adapter: &mut A,
) -> (r: Result<ViewerAttachment, ViewerAttachError>)
    ensures
        request.exec_id@ != handle.exec_id@ ==> *final(adapter) == *old(adapter) && r == Err::<
            ViewerAttachment,
            ViewerAttachError,
        >(
            ViewerAttachError::RequestHandleMismatch {
                requested_exec_id: request.exec_id,
                handle_exec_id: handle.exec_id,
            },
        ),
        request.exec_id@ == handle.exec_id@ ==> exists|m: &mut A|
            *m == *old(adapter) && *final(m) == *final(adapter) && call_ensures(
                A::attach,
                (m, handle),
                r,
            ),
{
    if !request.exec_id.same_as(&handle.exec_id) {
        return Err(
            ViewerAttachError::RequestHandleMismatch {
                requested_exec_id: request.exec_id.duplicate(),
                handle_exec_id: handle.exec_id.duplicate(),
            },
        );
    }
    let attach = A::attach;
    let r = attach(adapter, handle);
    r
}

} // verus!
