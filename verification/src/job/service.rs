//! The decisions of the job service when it starts and completes job runs. The database reads
//! and the transactions stay with the caller, which passes in what it read and ends the
//! transaction as told.

use vstd::prelude::*;
use vstd::string::StringExecFns;

use crate::error::{generic_text, missing_record_pk, Error};
use crate::job::data::JobId;
use crate::text::{int_text, push_i64_text};
use crate::workflow::data::WorkflowId;
use crate::workflow_run::data::{WorkflowRunId, WorkflowRunStatus};

verus! {

/// How the open transaction ends when a job step stops early.
#[derive(PartialEq, Eq, Structural, Clone, Copy, Debug)]
pub enum TransactionEnd {
    Commit,
    Rollback,
}

/// A job step that cannot go on: the error returned and how the transaction ends.
#[derive(Debug)]
pub struct JobStepError {
    pub error: Error,
    pub end: TransactionEnd,
}

/// Starting a run of job `job_id`, given the job row locked for update (its workflow and whether
/// it is paused), or `None` when no row could be locked: a paused job is refused and the
/// transaction committed; a missing job is refused and the transaction dropped; otherwise the
/// job's workflow is the one to start a run of.
pub fn run_job_decision(job_id: JobId, row: Option<(WorkflowId, bool)>) -> (r: Result<
    WorkflowId,
    JobStepError,
>)
    ensures
        match row {
            Some((workflow_id, true)) => r matches Err(e) && e.end == TransactionEnd::Commit
                && generic_text(e.error) == Some("Job, id = "@ + int_text(job_id.0 as int)
                + ", is paused"@),
            Some((workflow_id, false)) => r == Ok::<WorkflowId, JobStepError>(workflow_id),
            None => r matches Err(e) && e.end == TransactionEnd::Rollback
                && missing_record_pk(e.error) == Some(int_text(job_id.0 as int)),
        },
{
    match row {
        Some((_, is_paused)) if is_paused => {
            let mut message = "Job, id = ".to_owned();
            push_i64_text(&mut message, job_id.0);
            message.append(", is paused");
            Err(JobStepError { error: Error::Generic(message), end: TransactionEnd::Commit })
        },
        Some((workflow_id, _)) => Ok(workflow_id),
        None => Err(
            JobStepError {
                error: Error::MissingRecord { pk: job_id.to_string() },
                end: TransactionEnd::Rollback,
            },
        ),
    }
}

/// Completing job `job_id`, given its current workflow run as read from the row locked for
/// update (`None` when no row could be locked, `Some(None)` when the job has no run): the run to
/// check, or the error to return after committing.
pub fn complete_job_target(job_id: JobId, row: Option<Option<WorkflowRunId>>) -> (r: Result<
    WorkflowRunId,
    Error,
>)
    ensures
        match row {
            Some(Some(id)) => r == Ok::<WorkflowRunId, Error>(id),
            Some(None) => r matches Err(Error::Generic(m)) && m@ == "Job must be active to finish"@,
            None => r matches Err(Error::Generic(m)) && m@ == "No job for job_id = "@ + int_text(
                job_id.0 as int,
            ),
        },
{
    match row {
        Some(Some(workflow_run_id)) => Ok(workflow_run_id),
        Some(None) => Err(Error::Generic("Job must be active to finish".to_owned())),
        None => {
            let mut message = "No job for job_id = ".to_owned();
            push_i64_text(&mut message, job_id.0);
            Err(Error::Generic(message))
        },
    }
}

/// Whether a job's finished workflow run counts as a success, given the run's status as read:
/// a run still scheduled or running cannot complete the job; a read failure is passed on; any
/// other status completes the job, successfully exactly when the run is complete. Every error
/// is returned after committing.
pub fn job_completion_status(status: Result<WorkflowRunStatus, Error>) -> (r: Result<bool, Error>)
    ensures
        match status {
            Ok(WorkflowRunStatus::Scheduled) | Ok(WorkflowRunStatus::Running) => r matches Err(
                Error::Generic(m),
            ) && m@ == "Workflow must be done to complete job"@,
            Ok(s) => r == Ok::<bool, Error>(s == WorkflowRunStatus::Complete),
            Err(e) => r == Err::<bool, Error>(e),
        },
{
    match status {
        Ok(s) => {
            if s == WorkflowRunStatus::Scheduled || s == WorkflowRunStatus::Running {
                Err(Error::Generic("Workflow must be done to complete job".to_owned()))
            } else {
                Ok(s == WorkflowRunStatus::Complete)
            }
        },
        Err(error) => Err(error),
    }
}

/// The outcome of the database's `job.complete_job` message: an empty message is success (the
/// transaction is committed), any other message is the error (the transaction is rolled back).
pub fn job_completion_message(message: String) -> (r: Result<(), Error>)
    ensures
        message@.len() == 0 <==> r is Ok,
        r matches Err(Error::Generic(m)) ==> m == message,
        r is Err ==> r matches Err(Error::Generic(_)),
{
    if message.as_str().is_empty() {
        Ok(())
    } else {
        Err(Error::Generic(message))
    }
}

} // verus!
