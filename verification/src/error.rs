//! Errors raised by the engine's own rules and parsers.

use vstd::prelude::*;

use crate::text::IntErrorKind;
use crate::time::Timestamp;

verus! {

/// Errors of the workflow engine's logic. Failures of the database, the network or the mailer
/// are carried by the surrounding program, which wraps this type.
#[derive(Debug)]
pub enum Error {
    /// A job was started before its next run.
    JobNotReady,
    /// An executor could not be initialised.
    ExecutorInit(String),
    /// A remote task run ended without a final message.
    ExitedTask,
    /// An error described by its message.
    Generic(String),
    /// The job queue holds the same job twice, with the two next runs found.
    DuplicateJobId(i64, [Timestamp; 2]),
    /// A notification payload could not be read.
    PayloadParseError(String),
    /// No record matches the primary key given.
    MissingRecord { pk: String },
    /// A text is not a decimal `i64`.
    ParseInt(IntErrorKind),
}

/// The record read for primary key `pk`, or a `MissingRecord` error naming the key when no record
/// was found.
pub fn require_record<T>(record: Option<T>, pk: String) -> (r: Result<T, Error>)
    ensures
        match record {
            Some(x) => r == Ok::<T, Error>(x),
            None => r matches Err(e) && missing_record_pk(e) == Some(pk@),
        },
{
    match record {
        Some(x) => Ok(x),
        None => Err(Error::MissingRecord { pk }),
    }
}

/// The message of a `Generic` error.
pub open spec fn generic_text(e: Error) -> Option<Seq<char>> {
    match e {
        Error::Generic(m) => Some(m@),
        _ => None,
    }
}

/// The key of a `MissingRecord` error.
pub open spec fn missing_record_pk(e: Error) -> Option<Seq<char>> {
    match e {
        Error::MissingRecord { pk } => Some(pk@),
        _ => None,
    }
}

/// The job id and the two next runs of a `DuplicateJobId` error.
pub open spec fn duplicate_job_parts(e: Error) -> Option<(i64, Timestamp, Timestamp)> {
    match e {
        Error::DuplicateJobId(id, runs) => Some((id, runs[0], runs[1])),
        _ => None,
    }
}

} // verus!
