//! The decisions of the workflow run and task queue services and of the worker that runs the
//! tasks of one workflow run. Database calls, transactions and the remote task requests stay
//! with the caller.

use vstd::prelude::*;
use vstd::string::StringExecFns;

use crate::error::{generic_text, Error};
use crate::executor::data::ExecutorId;
use crate::text::{blank, int_text, is_blank, push_i64_text};
use crate::workflow::data::WorkflowId;
use crate::workflow_run::data::{
    TaskQueueRecord, TaskQueueRequest, TaskResponse, TaskRule, TaskStatus, WorkflowRunId,
};

verus! {

/// The text `Option<WorkflowId>`'s `Debug` writes: `Some(WorkflowId(n))` or `None`.
pub open spec fn debug_workflow_id_text(id: Option<WorkflowId>) -> Seq<char> {
    match id {
        Some(w) => "Some(WorkflowId("@ + int_text(w.0 as int) + "))"@,
        None => "None"@,
    }
}

/// A workflow run can be initialized only for a workflow that is not deprecated; the refusal
/// names the workflow that replaces it, if any.
pub fn initialize_check(is_deprecated: bool, new_workflow: Option<WorkflowId>) -> (r: Result<
    (),
    Error,
>)
    ensures
        r is Ok <==> !is_deprecated,
        r matches Err(e) ==> generic_text(e) == Some(
            "Cannot initialize a workflow_run with a deprecated workflow. Consider using workflow_id = "@
                + debug_workflow_id_text(new_workflow),
        ),
{
    if !is_deprecated {
        return Ok(());
    }
    let mut message =
        "Cannot initialize a workflow_run with a deprecated workflow. Consider using workflow_id = ".to_owned();
    match new_workflow {
        Some(w) => {
            message.append("Some(WorkflowId(");
            push_i64_text(&mut message, w.0);
            message.append("))");
        },
        None => {
            message.append("None");
        },
    }
    Err(Error::Generic(message))
}

/// The channel on which executor `executor_id` hears that a workflow run was scheduled for it.
pub fn scheduled_channel_name(executor_id: &ExecutorId) -> (r: String)
    ensures
        r@ == "wr_scheduled_"@ + int_text(executor_id.0 as int),
{
    let mut name = "wr_scheduled_".to_owned();
    push_i64_text(&mut name, executor_id.0);
    name
}

/// The channel on which executor `executor_id` hears that one of its workflow runs was
/// cancelled.
pub fn cancel_channel_name(executor_id: &ExecutorId) -> (r: String)
    ensures
        r@ == "wr_canceled_"@ + int_text(executor_id.0 as int),
{
    let mut name = "wr_canceled_".to_owned();
    push_i64_text(&mut name, executor_id.0);
    name
}

/// The primary key text of a task queue record in error messages: `<workflow run id> + <order>`.
pub fn task_queue_pk(request: &TaskQueueRequest) -> (r: String)
    ensures
        r@ == int_text(request.workflow_run_id.0 as int) + " + "@ + int_text(request.task_order as int),
{
    let mut pk = String::new();
    push_i64_text(&mut pk, request.workflow_run_id.0);
    pk.append(" + ");
    push_i64_text(&mut pk, request.task_order as i64);
    proof {
        assert(pk@ =~= int_text(request.workflow_run_id.0 as int) + " + "@ + int_text(
            request.task_order as int,
        ));
    }
    pk
}

/// A task queue record can be retried only when it failed or broke a rule.
pub fn retry_task_check(status: TaskStatus) -> (r: Result<(), Error>)
    ensures
        r is Ok <==> (status == TaskStatus::Failed || status == TaskStatus::RuleBroken),
        r matches Err(e) ==> generic_text(e) == Some(
            "Cannot retry task. Status must be 'Failed' or 'Rule Broken'"@,
        ),
{
    if status != TaskStatus::RuleBroken && status != TaskStatus::Failed {
        return Err(
            Error::Generic("Cannot retry task. Status must be 'Failed' or 'Rule Broken'".to_owned()),
        );
    }
    Ok(())
}

/// A task rule can be recorded only when its name is not blank.
pub fn append_task_rule_check(rule: &TaskRule) -> (r: Result<(), Error>)
    ensures
        r is Ok <==> !blank(rule.name@),
        r matches Err(e) ==> generic_text(e) == Some(
            "Task rule attribute 'name' cannot be empty or whitespace"@,
        ),
{
    if is_blank(rule.name.as_str()) {
        return Err(
            Error::Generic("Task rule attribute 'name' cannot be empty or whitespace".to_owned()),
        );
    }
    Ok(())
}

/// What to do with one message streamed back by a task service.
#[derive(Debug)]
pub enum ResponseAction {
    /// Record the progress on the task queue record.
    SetProgress(TaskQueueRequest, i16),
    /// Record the rule on the task queue record.
    AppendRule(TaskQueueRequest, TaskRule),
    /// The task run is over: whether it succeeded and its message.
    Done(bool, Option<String>),
}

/// The key of a task queue record.
pub open spec fn record_key(record: &TaskQueueRecord) -> TaskQueueRequest {
    TaskQueueRequest { workflow_run_id: record.workflow_run_id, task_order: record.task_order }
}

/// The action for a message streamed back during the run of `record`: progress and rules are
/// recorded against the record, the final message ends the run with its contents.
pub fn process_response(response: TaskResponse, record: &TaskQueueRecord) -> (r: ResponseAction)
    ensures
        match response {
            TaskResponse::Progress(p) => r matches ResponseAction::SetProgress(k, q) && k
                == record_key(record) && q == p,
            TaskResponse::Rule(rule) => r matches ResponseAction::AppendRule(k, x) && k
                == record_key(record) && x == rule,
            TaskResponse::Done { success, message } => r matches ResponseAction::Done(s, m) && s
                == success && m == message,
        },
{
    let key = TaskQueueRequest {
        workflow_run_id: record.workflow_run_id,
        task_order: record.task_order,
    };
    match response {
        TaskResponse::Progress(progress) => ResponseAction::SetProgress(key, progress),
        TaskResponse::Rule(rule) => ResponseAction::AppendRule(key, rule),
        TaskResponse::Done { success, message } => ResponseAction::Done(success, message),
    }
}

/// Where a worker stands in running the tasks of its workflow run.
#[derive(PartialEq, Eq, Structural, Clone, Copy, Debug)]
pub enum WorkerPhase {
    /// Waiting for the next task of the run.
    Fetching,
    /// A task is running.
    Running,
    /// The worker is finished; the workflow run has been completed.
    Done,
}

/// What a workflow run worker does next.
#[derive(Debug)]
pub enum WorkerAction {
    /// Run the task given.
    RunTask(TaskQueueRecord),
    /// Record the task as complete (or paused) with its message, then fetch the next task.
    CompleteTask { record: TaskQueueRecord, is_paused: bool, message: Option<String> },
    /// Record the task as failed with the error, then complete the workflow run and stop.
    FailTask { record: TaskQueueRecord, error: Error },
    /// No task is left: complete the workflow run and stop.
    CompleteWorkflowRun,
}

/// The worker that runs the tasks of one workflow run in order until none is left or one fails.
pub struct WorkflowRunWorker {
    workflow_run_id: WorkflowRunId,
    phase: WorkerPhase,
}

impl WorkflowRunWorker {
    /// The workflow run this worker runs.
    pub closed spec fn run_id(&self) -> WorkflowRunId {
        self.workflow_run_id
    }

    /// Where the worker stands.
    pub closed spec fn spec_phase(&self) -> WorkerPhase {
        self.phase
    }

    /// A worker for `workflow_run_id`, about to fetch its first task.
    pub fn new(workflow_run_id: WorkflowRunId) -> (r: Self)
        ensures
            r.run_id() == workflow_run_id,
            r.spec_phase() == WorkerPhase::Fetching,
    {
        WorkflowRunWorker { workflow_run_id, phase: WorkerPhase::Fetching }
    }

    /// The workflow run this worker runs.
    pub fn workflow_run_id(&self) -> (r: WorkflowRunId)
        ensures
            r == self.run_id(),
    {
        self.workflow_run_id
    }

    /// Where the worker stands.
    pub fn phase(&self) -> (r: WorkerPhase)
        ensures
            r == self.spec_phase(),
    {
        self.phase
    }

    /// The next task fetched for the run (`None` when no task is left): run it, or complete the
    /// workflow run and finish.
    pub fn on_next_task(&mut self, next_task: Option<TaskQueueRecord>) -> (r: WorkerAction)
        requires
            old(self).spec_phase() == WorkerPhase::Fetching,
        ensures
            final(self).run_id() == old(self).run_id(),
            match next_task {
                Some(record) => r == WorkerAction::RunTask(record) && final(self).spec_phase()
                    == WorkerPhase::Running,
                None => r is CompleteWorkflowRun && final(self).spec_phase() == WorkerPhase::Done,
            },
    {
        match next_task {
            Some(record) => {
                self.phase = WorkerPhase::Running;
                WorkerAction::RunTask(record)
            },
            None => {
                self.phase = WorkerPhase::Done;
                WorkerAction::CompleteWorkflowRun
            },
        }
    }

    /// The result of running `record`: on success record its completion and fetch the next
    /// task; on failure record the failure, complete the workflow run and finish.
    pub fn on_task_result(
        &mut self,
        record: TaskQueueRecord,
        result: Result<(bool, Option<String>), Error>,
    ) -> (r: WorkerAction)
        requires
            old(self).spec_phase() == WorkerPhase::Running,
        ensures
            final(self).run_id() == old(self).run_id(),
            match result {
                Ok((is_paused, message)) => r == (WorkerAction::CompleteTask {
                    record,
                    is_paused,
                    message,
                }) && final(self).spec_phase() == WorkerPhase::Fetching,
                Err(error) => r == (WorkerAction::FailTask { record, error })
                    && final(self).spec_phase() == WorkerPhase::Done,
            },
    {
        match result {
            Ok((is_paused, message)) => {
                self.phase = WorkerPhase::Fetching;
                WorkerAction::CompleteTask { record, is_paused, message }
            },
            Err(error) => {
                self.phase = WorkerPhase::Done;
                WorkerAction::FailTask { record, error }
            },
        }
    }
}

} // verus!
