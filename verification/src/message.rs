//! The catalogue of human-readable messages that responses carry.

use vstd::prelude::*;
use vstd::string::StringExecFns;

verus! {

/// Every message the service can attach to a response, either a fixed
/// phrase or a phrase carrying details of the failure.
#[derive(Debug)]
pub enum ErrorMessage {
    Authorized,
    CantBeNull,
    CreateDataSuccess,
    DeleteSuccess,
    Duplicate,
    InsufficientPermissions,
    InvalidAuthHeader,
    InvalidAuthScheme,
    LoginInvalid,
    LoginSuccess,
    LogoutSuccess,
    NoAuthHeader,
    NotFound,
    RefreshTokenInvalid,
    Success,
    TokenInvalid,
    UnAuthorized,
    UpdateDataSuccess,
    UserAlreadyInGroup,
    UserNotMatch,
    DataTooLong,
    CheckConstraintFailed,
    ForeignKeyViolation,
    DatabaseError { details: String },
    Error { details: String },
    FailedAddMember { details: String },
    FailedFetchFinishedTask { details: String },
    FailedFetchUnFinishedTask { details: String },
    TaskTypeError { details: String },
    TokenDecodeError { details: String },
    TokenGenerateFailed { details: String },
    UnhanledErrorCode { code: String, details: String },
}

impl ErrorMessage {
    /// The exact wording of this message.
    pub open spec fn spec_text(&self) -> Seq<char> {
        match self {
            ErrorMessage::Authorized => "Authorized"@,
            ErrorMessage::CantBeNull => "Can't be null"@,
            ErrorMessage::CreateDataSuccess => "Create data success"@,
            ErrorMessage::DeleteSuccess => "Delete data success"@,
            ErrorMessage::Duplicate => "Data duplicated"@,
            ErrorMessage::InsufficientPermissions => "Insufficient permissions for this action"@,
            ErrorMessage::InvalidAuthHeader => "Invalid authorization header"@,
            ErrorMessage::InvalidAuthScheme => "Invalid authorization scheme"@,
            ErrorMessage::LoginInvalid => "Username or password is wrong"@,
            ErrorMessage::LoginSuccess => "Login successful"@,
            ErrorMessage::LogoutSuccess => "Logout successful"@,
            ErrorMessage::NoAuthHeader => "No authorization header provided"@,
            ErrorMessage::NotFound => "Data not found"@,
            ErrorMessage::RefreshTokenInvalid => "Refresh token invalid"@,
            ErrorMessage::Success => "Success"@,
            ErrorMessage::TokenInvalid => "Token invalid"@,
            ErrorMessage::UnAuthorized => "Unauthorized"@,
            ErrorMessage::UpdateDataSuccess => "Update data successfully"@,
            ErrorMessage::UserAlreadyInGroup => "Some user already in group"@,
            ErrorMessage::UserNotMatch => "User not match"@,
            ErrorMessage::DataTooLong => "Data too long for column"@,
            ErrorMessage::CheckConstraintFailed => "Check constraint failed"@,
            ErrorMessage::ForeignKeyViolation => "Foreign key constraint violated"@,
            ErrorMessage::DatabaseError { details } => "Database error: "@ + details@,
            ErrorMessage::Error { details } => "Error: "@ + details@,
            ErrorMessage::FailedAddMember { details } => "Failed to add member: "@ + details@,
            ErrorMessage::FailedFetchFinishedTask { details } => (
                "Failed to fetch finished task: "@ + details@
            ),
            ErrorMessage::FailedFetchUnFinishedTask { details } => (
                "Failed to fetch unfinished task: "@ + details@
            ),
            ErrorMessage::TaskTypeError { details } => "Task type error: "@ + details@,
            ErrorMessage::TokenDecodeError { details } => "Token decode error: "@ + details@,
            ErrorMessage::TokenGenerateFailed { details } => (
                "Token generation failed: "@ + details@
            ),
            ErrorMessage::UnhanledErrorCode { code, details } => (
                "Unhandled error code "@ + code@ + ": "@ + details@
            ),
        }
    }

    /// Renders this message as its exact wording.
    pub fn text(&self) -> (r: String)
        ensures
            r@ == self.spec_text(),
    {
        match self {
            ErrorMessage::Authorized => "Authorized".to_owned(),
            ErrorMessage::CantBeNull => "Can't be null".to_owned(),
            ErrorMessage::CreateDataSuccess => "Create data success".to_owned(),
            ErrorMessage::DeleteSuccess => "Delete data success".to_owned(),
            ErrorMessage::Duplicate => "Data duplicated".to_owned(),
            ErrorMessage::InsufficientPermissions => {
                "Insufficient permissions for this action".to_owned()
            },
            ErrorMessage::InvalidAuthHeader => "Invalid authorization header".to_owned(),
            ErrorMessage::InvalidAuthScheme => "Invalid authorization scheme".to_owned(),
            ErrorMessage::LoginInvalid => "Username or password is wrong".to_owned(),
            ErrorMessage::LoginSuccess => "Login successful".to_owned(),
            ErrorMessage::LogoutSuccess => "Logout successful".to_owned(),
            ErrorMessage::NoAuthHeader => "No authorization header provided".to_owned(),
            ErrorMessage::NotFound => "Data not found".to_owned(),
            ErrorMessage::RefreshTokenInvalid => "Refresh token invalid".to_owned(),
            ErrorMessage::Success => "Success".to_owned(),
            ErrorMessage::TokenInvalid => "Token invalid".to_owned(),
            ErrorMessage::UnAuthorized => "Unauthorized".to_owned(),
            ErrorMessage::UpdateDataSuccess => "Update data successfully".to_owned(),
            ErrorMessage::UserAlreadyInGroup => "Some user already in group".to_owned(),
            ErrorMessage::UserNotMatch => "User not match".to_owned(),
            ErrorMessage::DataTooLong => "Data too long for column".to_owned(),
            ErrorMessage::CheckConstraintFailed => "Check constraint failed".to_owned(),
            ErrorMessage::ForeignKeyViolation => "Foreign key constraint violated".to_owned(),
            ErrorMessage::DatabaseError { details } => {
                "Database error: ".to_owned().concat(details.as_str())
            },
            ErrorMessage::Error { details } => "Error: ".to_owned().concat(details.as_str()),
            ErrorMessage::FailedAddMember { details } => {
                "Failed to add member: ".to_owned().concat(details.as_str())
            },
            ErrorMessage::FailedFetchFinishedTask { details } => {
                "Failed to fetch finished task: ".to_owned().concat(details.as_str())
            },
            ErrorMessage::FailedFetchUnFinishedTask { details } => {
                "Failed to fetch unfinished task: ".to_owned().concat(details.as_str())
            },
            ErrorMessage::TaskTypeError { details } => {
                "Task type error: ".to_owned().concat(details.as_str())
            },
            ErrorMessage::TokenDecodeError { details } => {
                "Token decode error: ".to_owned().concat(details.as_str())
            },
            ErrorMessage::TokenGenerateFailed { details } => {
                "Token generation failed: ".to_owned().concat(details.as_str())
            },
            ErrorMessage::UnhanledErrorCode { code, details } => {
                "Unhandled error code ".to_owned().concat(code.as_str()).concat(": ").concat(
                    details.as_str(),
                )
            },
        }
    }
}

} // verus!
