//! Workflows, tasks and the requests that create them.

use vstd::prelude::*;

use crate::text::{blank, i64_to_string, int_text, is_blank};

verus! {

/// A task as seen from the workflow that holds it (`task.workflow_tasks` joined with the task and
/// its service). Parameters are held as JSON text.
#[derive(Debug)]
pub struct WorkflowTask {
    pub task_order: i32,
    pub task_id: TaskId,
    pub name: String,
    pub description: String,
    pub parameters: Option<String>,
    pub service_name: String,
    pub url: String,
}

/// One task of a workflow creation request. Parameters are held as JSON text.
#[derive(Debug)]
pub struct WorkflowTaskRequest {
    pub task_id: TaskId,
    pub parameters: Option<String>,
}

/// Request to create a workflow: its name and its tasks in order.
#[derive(Debug)]
pub struct WorkflowRequest {
    pub name: String,
    pub tasks: Vec<WorkflowTaskRequest>,
}

/// Validation of a [`WorkflowRequest`].
pub struct WorkflowRequestValidator;

impl WorkflowRequestValidator {
    /// The request's name must hold a character that is not white space.
    pub fn validate(request: &WorkflowRequest) -> (r: Result<(), &'static str>)
        ensures
            r is Ok <==> !blank(request.name@),
            r matches Err(m) ==> m@ == "Request 'name' cannot be empty or whitespace"@,
    {
        if is_blank(request.name.as_str()) {
            return Err("Request 'name' cannot be empty or whitespace");
        }
        Ok(())
    }
}

/// Request to deprecate a workflow, optionally naming the workflow that replaces it.
#[derive(Debug)]
pub struct WorkflowDeprecationRequest {
    pub workflow_id: WorkflowId,
    pub new_workflow_id: Option<WorkflowId>,
}

/// A workflow from `workflow.v_workflows` with its tasks.
#[derive(Debug)]
pub struct Workflow {
    pub workflow_id: WorkflowId,
    pub name: String,
    pub tasks: Vec<WorkflowTask>,
}

/// A task from `task.v_tasks`.
#[derive(Debug)]
pub struct Task {
    pub task_id: TaskId,
    pub name: String,
    pub description: String,
    pub url: String,
    pub task_service_name: String,
}

/// Data to create or update a task (its id cannot change).
#[derive(Debug)]
pub struct TaskRequest {
    pub name: String,
    pub description: String,
    pub task_service_id: i64,
    pub url: String,
}

/// The message a task request is refused with, if any: the first of name, description and url
/// that is blank.
pub open spec fn task_request_error(request: &TaskRequest) -> Option<Seq<char>> {
    if blank(request.name@) {
        Some("Request 'name' cannot be empty or whitespace"@)
    } else if blank(request.description@) {
        Some("Request 'description' cannot be empty or whitespace"@)
    } else if blank(request.url@) {
        Some("Request 'url' cannot be empty or whitespace"@)
    } else {
        None
    }
}

/// A task request is accepted exactly when its name, description and url each hold a character
/// that is not white space. A refused request names the first of them, in that order, that is
/// blank (empty or only white space).
pub proof fn lemma_task_request_valid(request: &TaskRequest)
    ensures
        task_request_error(request) is None <==> !blank(request.name@) && !blank(request.description@)
            && !blank(request.url@),
        blank(request.name@) ==> task_request_error(request) == Some(
            "Request 'name' cannot be empty or whitespace"@,
        ),
        !blank(request.name@) && blank(request.description@) ==> task_request_error(request) == Some(
            "Request 'description' cannot be empty or whitespace"@,
        ),
        !blank(request.name@) && !blank(request.description@) && blank(request.url@)
            ==> task_request_error(request) == Some("Request 'url' cannot be empty or whitespace"@),
{
}

/// Validation of a [`TaskRequest`].
pub struct TaskRequestValidator;

impl TaskRequestValidator {
    /// Name, description and url must each hold a character that is not white space; the first
    /// that does not is reported.
    pub fn validate(request: &TaskRequest) -> (r: Result<(), &'static str>)
        ensures
            match r {
                Ok(()) => task_request_error(request) is None,
                Err(m) => task_request_error(request) == Some(m@),
            },
            r is Ok <==> !blank(request.name@) && !blank(request.description@) && !blank(
                request.url@,
            ),
            blank(request.name@) ==> (r matches Err(m) && m@
                == "Request 'name' cannot be empty or whitespace"@),
            !blank(request.name@) && blank(request.description@) ==> (r matches Err(m) && m@
                == "Request 'description' cannot be empty or whitespace"@),
            !blank(request.name@) && !blank(request.description@) && blank(request.url@) ==> (r matches Err(
                m,
            ) && m@ == "Request 'url' cannot be empty or whitespace"@),
    {
        proof {
            lemma_task_request_valid(request);
        }
        if is_blank(request.name.as_str()) {
            return Err("Request 'name' cannot be empty or whitespace");
        }
        if is_blank(request.description.as_str()) {
            return Err("Request 'description' cannot be empty or whitespace");
        }
        if is_blank(request.url.as_str()) {
            return Err("Request 'url' cannot be empty or whitespace");
        }
        Ok(())
    }
}

/// Identifier of a workflow. Wraps the database's `bigint` key so that it is not mixed up with other
/// integers.
#[derive(Clone, Copy, PartialEq, Eq, Structural, Hash, Debug)]
pub struct WorkflowId(pub i64);

impl From<i64> for WorkflowId {
    fn from(value: i64) -> (r: Self) {
        WorkflowId(value)
    }
}

impl vstd::std_specs::convert::FromSpecImpl<i64> for WorkflowId {
    open spec fn obeys_from_spec() -> bool {
        true
    }

    open spec fn from_spec(v: i64) -> Self {
        WorkflowId(v)
    }
}

impl WorkflowId {
    /// The wrapped key.
    pub fn into_inner(self) -> (r: i64)
        ensures
            r == self.0,
    {
        self.0
    }

    /// The decimal text of the key, as the type's `Display` writes it.
    pub fn to_string(&self) -> (r: String)
        ensures
            r@ == int_text(self.0 as int),
    {
        i64_to_string(self.0)
    }
}

/// Identifier of a task. Wraps the database's `bigint` key so that it is not mixed up with other
/// integers.
#[derive(Clone, Copy, PartialEq, Eq, Structural, Hash, Debug)]
pub struct TaskId(pub i64);

impl From<i64> for TaskId {
    fn from(value: i64) -> (r: Self) {
        TaskId(value)
    }
}

impl vstd::std_specs::convert::FromSpecImpl<i64> for TaskId {
    open spec fn obeys_from_spec() -> bool {
        true
    }

    open spec fn from_spec(v: i64) -> Self {
        TaskId(v)
    }
}

impl TaskId {
    /// The wrapped key.
    pub fn into_inner(self) -> (r: i64)
        ensures
            r == self.0,
    {
        self.0
    }

    /// The decimal text of the key, as the type's `Display` writes it.
    pub fn to_string(&self) -> (r: String)
        ensures
            r@ == int_text(self.0 as int),
    {
        i64_to_string(self.0)
    }
}

} // verus!
