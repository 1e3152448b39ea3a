//! Workflow runs and their task queue.

use vstd::prelude::*;

use crate::error::Error;
use crate::text::{i64_to_string, int_text, parse_i64, parse_i64_result};
use crate::time::Timestamp;
use crate::workflow::data::TaskId;

verus! {

/// Status of a workflow run as the database records it.
#[derive(PartialEq, Eq, Structural, Clone, Copy, Debug)]
pub enum WorkflowRunStatus {
    Waiting,
    Scheduled,
    Running,
    Paused,
    Failed,
    Complete,
    Canceled,
}

/// A task of a workflow run with its progress. Parameters are held as JSON text.
#[derive(Debug)]
pub struct WorkflowRunTask {
    pub task_order: i32,
    pub task_id: TaskId,
    pub name: String,
    pub description: String,
    pub task_status: TaskStatus,
    pub parameters: Option<String>,
    pub output: Option<String>,
    pub rules: Option<Vec<TaskRule>>,
    pub task_start: Option<Timestamp>,
    pub task_end: Option<Timestamp>,
    pub progress: Option<i16>,
}

/// A workflow run from `workflow_run.v_workflow_runs`.
#[derive(Debug)]
pub struct WorkflowRun {
    pub workflow_run_id: WorkflowRunId,
    pub workflow_id: i64,
    pub status: WorkflowRunStatus,
    pub executor_id: Option<i64>,
    pub progress: Option<i16>,
    pub tasks: Vec<WorkflowRunTask>,
}

/// A workflow run owned by an executor, as `workflow_run.executor_workflows` lists it. A run is
/// valid when its task queue holds only waiting or complete records.
#[derive(PartialEq, Eq, Structural, Clone, Copy, Debug)]
pub struct ExecutorWorkflowRun {
    pub workflow_run_id: WorkflowRunId,
    pub status: WorkflowRunStatus,
    pub is_valid: bool,
}

/// Identifier of a workflow run. Wraps the database's `bigint` key so that it is not mixed up with other
/// integers.
#[derive(Clone, Copy, PartialEq, Eq, Structural, Hash, Debug)]
pub struct WorkflowRunId(pub i64);

impl From<i64> for WorkflowRunId {
    fn from(value: i64) -> (r: Self) {
        WorkflowRunId(value)
    }
}

impl vstd::std_specs::convert::FromSpecImpl<i64> for WorkflowRunId {
    open spec fn obeys_from_spec() -> bool {
        true
    }

    open spec fn from_spec(v: i64) -> Self {
        WorkflowRunId(v)
    }
}

impl WorkflowRunId {
    /// The wrapped key.
    pub fn into_inner(self) -> (r: i64)
        ensures
            r == self.0,
    {
        self.0
    }

    /// The decimal text of the key, as the type's `Display` writes it.
    pub fn to_string(&self) -> (r: String)
        ensures
            r@ == int_text(self.0 as int),
    {
        i64_to_string(self.0)
    }

    /// Reads a workflow run id from text: a decimal `i64`.
    pub fn from_str(s: &str) -> (r: Result<Self, Error>)
        ensures
            match parse_i64_result(s@) {
                Ok(v) => r matches Ok(id) && id.0 == v,
                Err(k) => r matches Err(Error::ParseInt(e)) && e == k,
            },
    {
        match parse_i64(s) {
            Ok(v) => Ok(Self(v)),
            Err(k) => Err(Error::ParseInt(k)),
        }
    }
}

/// Status of a task of a workflow run as the database records it.
#[derive(PartialEq, Eq, Structural, Clone, Copy, Debug)]
pub enum TaskStatus {
    Waiting,
    Running,
    Complete,
    Failed,
    RuleBroken,
    Paused,
    Canceled,
}

/// A check made during a task run: a name (non-blank, unique within the task), whether it failed
/// and an optional message.
#[derive(Debug)]
pub struct TaskRule {
    pub name: String,
    pub failed: bool,
    pub message: Option<String>,
}

/// A row of the task queue. Parameters are held as JSON text.
#[derive(Debug)]
pub struct TaskQueueRecord {
    pub workflow_run_id: WorkflowRunId,
    pub task_order: i32,
    pub task_id: TaskId,
    pub status: TaskStatus,
    pub parameters: Option<String>,
    pub url: String,
}

/// The key of one task queue record.
#[derive(PartialEq, Eq, Structural, Clone, Copy, Debug)]
pub struct TaskQueueRequest {
    pub workflow_run_id: WorkflowRunId,
    pub task_order: i32,
}

/// A message that a task service streams back during a task run: a progress update (0 to 100),
/// a finished rule check, or the final message with a success flag and an optional message.
#[derive(Debug)]
pub enum TaskResponse {
    Progress(i16),
    Rule(TaskRule),
    Done { success: bool, message: Option<String> },
}

} // verus!
