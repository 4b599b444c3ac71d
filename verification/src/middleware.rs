//! The credential-checking middleware's configuration. The check itself —
//! decoding a bearer token — belongs to the external identity gate; the
//! library only carries the secret from startup to the transport layer.

use vstd::prelude::*;

verus! {

/// The middleware configuration: the secret that incoming credentials are
/// verified against.
pub struct AuthMiddleware {
    pub secret: String,
}

impl AuthMiddleware {
    /// Wraps a secret for the transport layer to verify credentials with.
    pub fn new(secret: String) -> (r: AuthMiddleware)
        ensures
            r.secret == secret,
    {
        AuthMiddleware { secret }
    }

    /// Pairs the secret with an inner service value.
    pub fn wrap<S>(&self, service: S) -> (r: AuthMiddlewareMiddleware<S>)
        ensures
            r.secret == self.secret,
            r.service == service,
    {
        AuthMiddlewareMiddleware { service, secret: self.secret.clone() }
    }
}

/// The configured middleware: an inner service together with the secret
/// its requests are checked against.
pub struct AuthMiddlewareMiddleware<S> {
    pub service: S,
    pub secret: String,
}

} // verus!
