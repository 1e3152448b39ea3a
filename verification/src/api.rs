//! Responses of the HTTP API: what a response holds and in which format it is written. Writing
//! the bytes and routing requests is left to the server around this crate.

use vstd::prelude::*;
use vstd::string::StringExecFns;

use crate::text::{int_text, push_i64_text, text_eq};
use crate::workflow::data::WorkflowId;

verus! {

/// The formats a response can be written in.
#[derive(PartialEq, Eq, Structural, Clone, Copy, Debug)]
pub enum ApiFormatType {
    Json,
    MessagePack,
}

impl ApiFormatType {
    /// Reads the `f` query value: `json` selects JSON, any other value MessagePack.
    pub fn from_value(value: &str) -> (r: Self)
        ensures
            r == (if value@ == "json"@ {
                ApiFormatType::Json
            } else {
                ApiFormatType::MessagePack
            }),
    {
        if text_eq(value, "json") {
            ApiFormatType::Json
        } else {
            ApiFormatType::MessagePack
        }
    }

    /// The format when none is asked for: MessagePack.
    pub fn default() -> (r: Self)
        ensures
            r == ApiFormatType::MessagePack,
    {
        ApiFormatType::MessagePack
    }
}

/// The body of a response: data on success, a message, or an error message.
#[derive(Debug)]
pub enum Response<T> {
    Success(T),
    Message(String),
    Error(String),
}

/// A response body together with the format it is written in.
#[derive(Debug)]
pub enum ApiResponse<T> {
    Json(Response<T>),
    MessagePack(Response<T>),
}

/// `response` to be written in `format`.
pub open spec fn formatted<T>(response: Response<T>, format: ApiFormatType) -> ApiResponse<T> {
    match format {
        ApiFormatType::Json => ApiResponse::Json(response),
        ApiFormatType::MessagePack => ApiResponse::MessagePack(response),
    }
}

impl<T> ApiResponse<T> {
    fn with_format(response: Response<T>, format: ApiFormatType) -> (r: Self)
        ensures
            r == formatted(response, format),
    {
        match format {
            ApiFormatType::Json => ApiResponse::Json(response),
            ApiFormatType::MessagePack => ApiResponse::MessagePack(response),
        }
    }

    /// A success carrying `data`.
    pub fn success(data: T, format: ApiFormatType) -> (r: Self)
        ensures
            r == formatted(Response::Success(data), format),
    {
        Self::with_format(Response::Success(data), format)
    }

    /// A message telling the user what happened.
    pub fn message(message: String, format: ApiFormatType) -> (r: Self)
        ensures
            r == formatted(Response::<T>::Message(message), format),
    {
        Self::with_format(Response::Message(message), format)
    }

    /// An error caused by the user's input.
    pub fn failure(message: String, format: ApiFormatType) -> (r: Self)
        ensures
            r == formatted(Response::<T>::Error(message), format),
    {
        Self::with_format(Response::Error(message), format)
    }

    /// An error returned by an operation, given by its message.
    pub fn error(message: String, format: ApiFormatType) -> (r: Self)
        ensures
            r == formatted(Response::<T>::Error(message), format),
    {
        Self::with_format(Response::Error(message), format)
    }

    /// The response of an endpoint to the result of its operation: the data on success, the
    /// error's message otherwise.
    pub fn from_result(result: Result<T, String>, format: ApiFormatType) -> (r: Self)
        ensures
            match result {
                Ok(data) => r == formatted(Response::Success(data), format),
                Err(message) => r == formatted(Response::<T>::Error(message), format),
            },
    {
        match result {
            Ok(data) => Self::success(data, format),
            Err(message) => Self::error(message, format),
        }
    }
}

/// The message of a successful workflow deprecation.
pub fn deprecated_message(workflow_id: WorkflowId) -> (r: String)
    ensures
        r@ == "Successfully deprecated workflow_id = "@ + int_text(workflow_id.0 as int),
{
    let mut message = "Successfully deprecated workflow_id = ".to_owned();
    push_i64_text(&mut message, workflow_id.0);
    message
}

} // verus!
