//! The response envelope every operation answers with, and the mapping
//! from store-layer faults to the error taxonomy.

use vstd::prelude::*;
use crate::message::ErrorMessage;

verus! {

/// The uniform response envelope: an HTTP-style status code, a
/// human-readable message, and an optional payload.
pub struct ApiResponder<T> {
    pub status: i32,
    pub message: String,
    pub data: Option<T>,
}

/// A failure reported by the persistence layer, reduced to what the
/// classification needs: a database error with its optional vendor code
/// and description, a lookup that found no row, or any other failure with
/// its description.
pub enum StoreFault {
    Database { code: Option<String>, details: String },
    RowNotFound,
    Other { details: String },
}

/// The status code that a fault classifies to: duplicates conflict,
/// null and malformed values are bad requests, foreign-key violations are
/// unprocessable, a missing row is not found, everything else is internal.
pub open spec fn spec_fault_status(f: StoreFault) -> int {
    match f {
        StoreFault::Database { code: Some(c), details: _ } => {
            if c@ == "1062"@ || c@ == "23000"@ {
                409
            } else if c@ == "1048"@ {
                400
            } else if c@ == "1452"@ || c@ == "1451"@ {
                422
            } else if c@ == "1406"@ {
                400
            } else if c@ == "3819"@ {
                400
            } else {
                500
            }
        },
        StoreFault::Database { code: None, details: _ } => 500,
        StoreFault::RowNotFound => 404,
        StoreFault::Other { details: _ } => 500,
    }
}

/// The message that a fault classifies to.
pub open spec fn spec_fault_message(f: StoreFault) -> Seq<char> {
    match f {
        StoreFault::Database { code: Some(c), details } => {
            if c@ == "1062"@ || c@ == "23000"@ {
                "Data duplicated"@
            } else if c@ == "1048"@ {
                "Can't be null"@
            } else if c@ == "1452"@ || c@ == "1451"@ {
                "Foreign key constraint violated"@
            } else if c@ == "1406"@ {
                "Data too long for column"@
            } else if c@ == "3819"@ {
                "Check constraint failed"@
            } else {
                "Unhandled error code "@ + c@ + ": "@ + details@
            }
        },
        StoreFault::Database { code: None, details } => "Database error: "@ + details@,
        StoreFault::RowNotFound => "Data not found"@,
        StoreFault::Other { details } => details@,
    }
}

impl<T> ApiResponder<T> {
    /// A 200 envelope.
    pub fn success(message: String, data: Option<T>) -> (r: ApiResponder<T>)
        ensures
            r.status == 200,
            r.message == message,
            r.data == data,
    {
        ApiResponder { status: 200, message, data }
    }

    /// A 201 envelope.
    pub fn created(message: String, data: Option<T>) -> (r: ApiResponder<T>)
        ensures
            r.status == 201,
            r.message == message,
            r.data == data,
    {
        ApiResponder { status: 201, message, data }
    }

    /// A 500 envelope.
    pub fn error(message: String, data: Option<T>) -> (r: ApiResponder<T>)
        ensures
            r.status == 500,
            r.message == message,
            r.data == data,
    {
        ApiResponder { status: 500, message, data }
    }

    /// A 401 envelope.
    pub fn unauthorized(message: String, data: Option<T>) -> (r: ApiResponder<T>)
        ensures
            r.status == 401,
            r.message == message,
            r.data == data,
    {
        ApiResponder { status: 401, message, data }
    }

    /// A 409 envelope.
    pub fn conflict(message: String, data: Option<T>) -> (r: ApiResponder<T>)
        ensures
            r.status == 409,
            r.message == message,
            r.data == data,
    {
        ApiResponder { status: 409, message, data }
    }

    /// A 422 envelope.
    pub fn unprocessable_entity(message: String, data: Option<T>) -> (r: ApiResponder<T>)
        ensures
            r.status == 422,
            r.message == message,
            r.data == data,
    {
        ApiResponder { status: 422, message, data }
    }

    /// A 404 envelope.
    pub fn not_found(message: String, data: Option<T>) -> (r: ApiResponder<T>)
        ensures
            r.status == 404,
            r.message == message,
            r.data == data,
    {
        ApiResponder { status: 404, message, data }
    }

    /// A 400 envelope.
    pub fn bad_request(message: String, data: Option<T>) -> (r: ApiResponder<T>)
        ensures
            r.status == 400,
            r.message == message,
            r.data == data,
    {
        ApiResponder { status: 400, message, data }
    }

    /// Classifies a store-layer fault into an envelope with no payload:
    /// a stable status from the taxonomy, and a message naming the fault.
    /// No internal detail beyond the fault's own description leaks.
    pub fn handle_error(fault: StoreFault) -> (r: ApiResponder<T>)
        ensures
            r.status == spec_fault_status(fault),
            r.message@ == spec_fault_message(fault),
            r.data is None,
    {
        match fault {
            StoreFault::Database { code: Some(c), details } => {
                let c1062: String = "1062".to_owned();
                let c23000: String = "23000".to_owned();
                let c1048: String = "1048".to_owned();
                let c1452: String = "1452".to_owned();
                let c1451: String = "1451".to_owned();
                let c1406: String = "1406".to_owned();
                let c3819: String = "3819".to_owned();
                if c == c1062 || c == c23000 {
                    Self::conflict(ErrorMessage::Duplicate.text(), None)
                } else if c == c1048 {
                    Self::bad_request(ErrorMessage::CantBeNull.text(), None)
                } else if c == c1452 || c == c1451 {
                    Self::unprocessable_entity(ErrorMessage::ForeignKeyViolation.text(), None)
                } else if c == c1406 {
                    Self::bad_request(ErrorMessage::DataTooLong.text(), None)
                } else if c == c3819 {
                    Self::bad_request(ErrorMessage::CheckConstraintFailed.text(), None)
                } else {
                    Self::error(
                        ErrorMessage::UnhanledErrorCode { code: c, details: details }.text(),
                        None,
                    )
                }
            },
            StoreFault::Database { code: None, details } => {
                Self::error(ErrorMessage::DatabaseError { details: details }.text(), None)
            },
            StoreFault::RowNotFound => Self::not_found(ErrorMessage::NotFound.text(), None),
            StoreFault::Other { details } => Self::error(details, None),
        }
    }
}

} // verus!
