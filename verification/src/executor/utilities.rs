//! Notification payloads that an executor receives.

use vstd::prelude::*;

use crate::error::Error;
use crate::text::{parse_i64_result, text_eq};
use crate::workflow_run::data::WorkflowRunId;

verus! {

/// What an executor status notification asks of the executor.
#[derive(PartialEq, Eq, Structural, Clone, Copy, Debug)]
pub enum ExecutorStatusUpdate {
    Cancel,
    Shutdown,
    NoOp,
}

/// The update that an executor status payload stands for: `cancel`, `shutdown`, anything else
/// is no operation.
pub open spec fn status_update_of(s: Seq<char>) -> ExecutorStatusUpdate {
    if s == "cancel"@ {
        ExecutorStatusUpdate::Cancel
    } else if s == "shutdown"@ {
        ExecutorStatusUpdate::Shutdown
    } else {
        ExecutorStatusUpdate::NoOp
    }
}

impl ExecutorStatusUpdate {
    /// Reads an executor status payload. Never fails.
    pub fn from_str(s: &str) -> (r: Result<Self, Error>)
        ensures
            r matches Ok(u) && u == status_update_of(s@),
            s@ == "cancel"@ ==> r == Ok::<Self, Error>(ExecutorStatusUpdate::Cancel),
            s@ == "shutdown"@ ==> r == Ok::<Self, Error>(ExecutorStatusUpdate::Shutdown),
            s@ != "cancel"@ && s@ != "shutdown"@ ==> r == Ok::<Self, Error>(ExecutorStatusUpdate::NoOp),
    {
        proof {
            reveal_strlit("cancel");
            reveal_strlit("shutdown");
            assert("cancel"@.len() != "shutdown"@.len());
        }
        if text_eq(s, "cancel") {
            Ok(ExecutorStatusUpdate::Cancel)
        } else if text_eq(s, "shutdown") {
            Ok(ExecutorStatusUpdate::Shutdown)
        } else {
            Ok(ExecutorStatusUpdate::NoOp)
        }
    }

    /// True for a cancellation.
    pub fn is_cancelled(&self) -> (r: bool)
        ensures
            r == (*self == ExecutorStatusUpdate::Cancel),
    {
        match self {
            ExecutorStatusUpdate::Cancel => true,
            ExecutorStatusUpdate::Shutdown | ExecutorStatusUpdate::NoOp => false,
        }
    }
}

/// A request to cancel a workflow run. `None` when the payload was not a workflow run id, in which
/// case the message is ignored.
#[derive(PartialEq, Eq, Structural, Clone, Copy, Debug)]
pub struct WorkflowRunCancelMessage(pub Option<WorkflowRunId>);

impl WorkflowRunCancelMessage {
    /// Reads a cancel payload: the workflow run id when the payload is a decimal `i64`, otherwise
    /// `None`. Never fails.
    pub fn from_str(s: &str) -> (r: Result<Self, Error>)
        ensures
            r matches Ok(m) && match parse_i64_result(s@) {
                Ok(v) => m.0 == Some(WorkflowRunId(v)),
                Err(_) => m.0 is None,
            },
    {
        match WorkflowRunId::from_str(s) {
            Ok(workflow_run_id) => Ok(WorkflowRunCancelMessage(Some(workflow_run_id))),
            Err(_) => Ok(WorkflowRunCancelMessage(None)),
        }
    }
}

/// Notice that a workflow run was scheduled; its payload is ignored.
#[derive(PartialEq, Eq, Structural, Clone, Copy, Debug)]
pub struct WorkflowRunScheduledMessage;

impl WorkflowRunScheduledMessage {
    /// Reads a scheduled payload. Never fails and ignores the text.
    pub fn from_str(_s: &str) -> (r: Result<Self, Error>)
        ensures
            r is Ok,
    {
        Ok(WorkflowRunScheduledMessage)
    }
}

} // verus!
