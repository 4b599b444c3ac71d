//! HTTP-style status codes of the response envelope, and the error
//! taxonomy that every store, roster and engine operation reports.

use vstd::prelude::*;

verus! {

/// The status codes that responses carry.
#[derive(Clone, Copy, Debug, PartialEq, Eq, Structural)]
pub enum Status {
    Success,
    Created,
    BadRequest,
    UnAuthorized,
    NotFound,
    Conflict,
    UnprocessableEntity,
    InternalServerError,
}

/// The numeric code of a status.
pub open spec fn spec_status_code(s: Status) -> int {
    match s {
        Status::Success => 200,
        Status::Created => 201,
        Status::BadRequest => 400,
        Status::UnAuthorized => 401,
        Status::NotFound => 404,
        Status::Conflict => 409,
        Status::UnprocessableEntity => 422,
        Status::InternalServerError => 500,
    }
}

impl Status {
    /// The numeric HTTP-style code of this status.
    pub fn code(&self) -> (r: i32)
        ensures
            r == spec_status_code(*self),
    {
        match self {
            Status::Success => 200,
            Status::Created => 201,
            Status::BadRequest => 400,
            Status::UnAuthorized => 401,
            Status::NotFound => 404,
            Status::Conflict => 409,
            Status::UnprocessableEntity => 422,
            Status::InternalServerError => 500,
        }
    }
}

/// The failure taxonomy: every operation that can fail reports exactly one
/// of these values; no partial success is ever returned.
#[derive(Clone, Copy, Debug, PartialEq, Eq, Structural)]
pub enum ApiError {
    /// A lookup or a delete matched no row.
    NotFound,
    /// A uniqueness constraint would be violated (duplicate completion,
    /// duplicate membership, duplicate username or subject).
    Conflict,
    /// A referential-integrity violation: a referenced row is missing, a
    /// completion does not match the task's assignment mode, or a delete
    /// would orphan dependent rows.
    Unprocessable,
    /// Malformed input, such as an invalid assignment-mode value.
    BadRequest,
    /// The caller's role does not permit the operation.
    Unauthorized,
    /// An unclassified internal failure, such as identifier exhaustion.
    Internal,
}

impl ApiError {
    /// The status a response reporting this error carries.
    pub fn status(&self) -> (r: Status)
        ensures
            r == spec_error_status(*self),
    {
        match self {
            ApiError::NotFound => Status::NotFound,
            ApiError::Conflict => Status::Conflict,
            ApiError::Unprocessable => Status::UnprocessableEntity,
            ApiError::BadRequest => Status::BadRequest,
            ApiError::Unauthorized => Status::UnAuthorized,
            ApiError::Internal => Status::InternalServerError,
        }
    }
}

/// The status that each taxonomy value maps to.
pub open spec fn spec_error_status(e: ApiError) -> Status {
    match e {
        ApiError::NotFound => Status::NotFound,
        ApiError::Conflict => Status::Conflict,
        ApiError::Unprocessable => Status::UnprocessableEntity,
        ApiError::BadRequest => Status::BadRequest,
        ApiError::Unauthorized => Status::UnAuthorized,
        ApiError::Internal => Status::InternalServerError,
    }
}

} // verus!
