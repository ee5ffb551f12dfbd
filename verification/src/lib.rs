//! Trust-and-toggle core of a social-content service.
//!
//! Two services cooperate: a credential authority that issues and validates
//! signed session tokens, and a content service that trusts those tokens to
//! authorize mutations on user, content, and engagement data.  This crate
//! holds the verified core of both: the token codec, the credential verifier
//! and token issuer, the token validator, and the idempotent toggle engine for
//! follow relations and upvote counters.  Transport, TLS, persistence, and
//! schema plumbing live outside the crate; handlers pass plain values in and
//! out.

use vstd::prelude::*;

pub mod auth;
pub mod buzz;
pub mod claims;
pub mod common;
pub mod idset;
pub mod numstr;
pub mod ratings;
pub mod reply;
pub mod server_auth;
pub mod tokens;
pub mod users;

verus! {

/// The error taxonomy shared by every fallible operation of the library.
///
/// Authentication failures (bad signature, expired or stale token, unknown
/// token) are deliberately collapsed into the single `Unauthenticated` kind,
/// so that callers cannot distinguish a bad token from a revoked one or from
/// a deleted account.  Store-level failures surface as the opaque `Internal`
/// kind; their raw text never crosses the trust boundary.
#[derive(Clone, Copy, Debug, PartialEq, Eq, Structural)]
pub enum ApiError {
    /// A referenced credential, principal, or content row is absent.
    NotFound,
    /// The submitted secret does not match, or the acting principal does not
    /// own the resource.
    Forbidden,
    /// The token is missing, expired, stale, or carries an invalid signature.
    Unauthenticated,
    /// A store-level constraint would be violated (duplicate key, self-follow).
    Conflict,
    /// The request shape itself is malformed or unknown.
    Unavailable,
    /// An internal collaborator failed; details are logged, not returned.
    Internal,
}

} // verus!
