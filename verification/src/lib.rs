//! Verified core of a workflow engine: the decisions an executor, a job worker and the task
//! queue make, the request validation rules, notification payload parsing and the ordering of
//! database build scripts. Database, network and process plumbing lives outside this crate and
//! hands plain values to the functions here.

pub mod text;
pub mod time;
pub mod error;
pub mod executor;
pub mod workflow;
pub mod workflow_run;
pub mod job;
pub mod job_worker;
pub mod db_build;
pub mod api;
