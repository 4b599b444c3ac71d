//! Refresh-session records kept by the external identity gate.

use vstd::prelude::*;

verus! {

/// A request to create a refresh session. The expiry is a plain timestamp,
/// seconds since the epoch.
pub struct CreateSessionRequest {
    pub session_id: String,
    pub user_id: i32,
    pub refresh_token: String,
    pub user_agent: String,
    pub expires_at: i64,
}

/// A request to revoke a refresh session.
pub struct RevokeSessionRequest {
    pub session_id: String,
    pub is_revoke: bool,
}

} // verus!
