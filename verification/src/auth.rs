//! Values exchanged with the external identity gate. The engine consumes a
//! verified `{member, role}` identity; it never validates credentials.

use vstd::prelude::*;
use crate::users::Role;

verus! {

/// The verified identity that the external gate supplies: the subject, the
/// member identifier, the role, and the credential's expiry.
pub struct Claims {
    pub sub: String,
    pub user_id: i32,
    pub role: Role,
    pub exp: usize,
}

/// An access and refresh credential for one signed-in member.
pub struct Token {
    pub access_token: String,
    pub refresh_token: String,
}

/// A login request.
pub struct LoginRequest {
    pub username: String,
    pub password: String,
}

/// A logout request; it carries nothing.
pub struct LogoutRequest {}

} // verus!
