//! The records the service stores, the bodies of requests and answers, and
//! the errors it answers with.

use vstd::prelude::*;

verus! {

/// A stored key: its name, which may read and write it, its read-only name,
/// which may only read it, its value, and when it was last written or read,
/// in microseconds since the Unix epoch.
#[derive(Debug, Clone)]
pub struct Key {
    pub name: String,
    pub roname: String,
    pub value: String,
    pub last_accessed: i64,
}

/// The body of a request that creates a key. A missing name is generated; a
/// missing value is the empty text.
#[derive(Debug, Clone)]
pub struct KeyCreateInput {
    pub name: Option<String>,
    pub name_readonly: Option<String>,
    pub value: Option<String>,
}

/// The answer to a key that was created: its two names.
#[derive(Debug, Clone)]
pub struct KeyCreateResponse {
    pub name: String,
    pub name_readonly: String,
    pub success: bool,
}

/// The query of a request that reads a key, by its name or its read-only name.
#[derive(Debug, Clone)]
pub struct KeyGetInput {
    pub name: String,
}

/// The answer to a read: the key's value.
#[derive(Debug, Clone)]
pub struct KeyGetResponse {
    pub value: String,
    pub success: bool,
}

/// The body of a request that sets a key's value, by its name.
#[derive(Debug, Clone)]
pub struct KeyUpdateInput {
    pub name: String,
    pub value: String,
}

/// The answer to a value that was set.
#[derive(Debug, Clone)]
pub struct KeyUpdateResponse {
    pub success: bool,
}

/// The query of a request that deletes a key, by its name.
#[derive(Debug, Clone)]
pub struct KeyDeleteInput {
    pub name: String,
}

/// The answer to a key that was deleted.
#[derive(Debug, Clone)]
pub struct KeyDeleteResponse {
    pub success: bool,
}

/// The body of every error answer.
#[derive(Debug, Clone)]
pub struct ErrorResponse {
    pub error: String,
    pub success: bool,
}

/// The HTTP status of an error answer.
#[derive(Debug, Clone, Copy, PartialEq, Eq, Structural)]
pub enum ErrorStatus {
    BadRequest,
    NotFound,
    TooManyRequests,
    InternalServerError,
}

/// The number of an HTTP status.
pub open spec fn status_number(s: ErrorStatus) -> u16 {
    match s {
        ErrorStatus::BadRequest => 400,
        ErrorStatus::NotFound => 404,
        ErrorStatus::TooManyRequests => 429,
        ErrorStatus::InternalServerError => 500,
    }
}

impl ErrorStatus {
    /// The number of this status: 400, 404, 429 or 500.
    pub fn code(&self) -> (r: u16)
        ensures
            r == status_number(*self),
    {
        match self {
            ErrorStatus::BadRequest => 400,
            ErrorStatus::NotFound => 404,
            ErrorStatus::TooManyRequests => 429,
            ErrorStatus::InternalServerError => 500,
        }
    }
}

/// An error answer: its status and its body.
#[derive(Debug, Clone)]
pub struct ApiError {
    pub status: ErrorStatus,
    pub body: ErrorResponse,
}

/// `e` answers with `status` and the message `message`, and says that the
/// request did not succeed.
pub open spec fn is_error(e: ApiError, status: ErrorStatus, message: Seq<char>) -> bool {
    &&& e.status == status
    &&& e.body.error@ == message
    &&& !e.body.success
}

/// Builds an error answer.
pub fn api_error(status: ErrorStatus, message: String) -> (e: ApiError)
    ensures
        e.status == status,
        e.body.error == message,
        !e.body.success,
{
    ApiError { status, body: ErrorResponse { error: message, success: false } }
}

} // verus!
