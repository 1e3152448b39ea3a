//! Executor records as the database holds them.

use vstd::prelude::*;

use crate::error::Error;
use crate::text::{i64_to_string, int_text, parse_i64, parse_i64_result};
use crate::time::Timestamp;

verus! {

/// Status of an executor as the database records it.
#[derive(PartialEq, Eq, Structural, Clone, Copy, Debug)]
pub enum ExecutorStatus {
    Active,
    Canceled,
    Shutdown,
}

/// An executor record from `executor.v_executors`. The client address is held as its text form.
#[derive(Debug)]
pub struct Executor {
    pub executor_id: ExecutorId,
    pub pid: i32,
    pub username: String,
    pub application_name: String,
    pub client_addr: String,
    pub client_port: i32,
    pub exec_start: Timestamp,
    pub session_active: bool,
    pub workflow_run_count: i64,
}

/// Identifier of an executor. Wraps the database's `bigint` key so that it is not mixed up with other
/// integers.
#[derive(Clone, Copy, PartialEq, Eq, Structural, Hash, Debug)]
pub struct ExecutorId(pub i64);

impl From<i64> for ExecutorId {
    fn from(value: i64) -> (r: Self) {
        ExecutorId(value)
    }
}

impl vstd::std_specs::convert::FromSpecImpl<i64> for ExecutorId {
    open spec fn obeys_from_spec() -> bool {
        true
    }

    open spec fn from_spec(v: i64) -> Self {
        ExecutorId(v)
    }
}

impl ExecutorId {
    /// The wrapped key.
    pub fn into_inner(self) -> (r: i64)
        ensures
            r == self.0,
    {
        self.0
    }

    /// The decimal text of the key, as the type's `Display` writes it.
    pub fn to_string(&self) -> (r: String)
        ensures
            r@ == int_text(self.0 as int),
    {
        i64_to_string(self.0)
    }

    /// Reads an executor id from a path parameter: a decimal `i64`.
    pub fn from_param(s: &str) -> (r: Result<Self, Error>)
        ensures
            match parse_i64_result(s@) {
                Ok(v) => r matches Ok(id) && id.0 == v,
                Err(k) => r matches Err(Error::ParseInt(e)) && e == k,
            },
    {
        match parse_i64(s) {
            Ok(v) => Ok(Self(v)),
            Err(k) => Err(Error::ParseInt(k)),
        }
    }
}

} // verus!
