//! The content service's view of the trust protocol.
//!
//! The content service never decodes tokens itself: it forwards the bearer
//! token to the validator over the private link and interprets the relayed
//! verdict.  Only a verdict that is present and authenticated grants the
//! `Authenticated` status; everything else — transport failure, missing
//! verdict, stale snapshot — collapses to `Unauthenticated`, so callers
//! cannot tell a bad token from a revoked one.

use crate::auth::Verdict;
use crate::numstr::{u64_dec, u64_to_string};
use crate::ApiError;
use vstd::prelude::*;
use vstd::string::*;

verus! {

/// The identity an authenticated request acts as.
pub struct Authenticated {
    pub auth_id: i64,
    pub user_id: i64,
    pub username: String,
    pub is_one_time_jwt: bool,
}

/// What the trust gateway reports about a request's bearer token.
pub enum AuthenticationStatus {
    Authenticated(Authenticated),
    Unauthenticated,
}

impl AuthenticationStatus {
    /// Ids carried by an authenticated status are store-assigned and
    /// therefore non-negative.
    pub open spec fn wf(&self) -> bool {
        match *self {
            AuthenticationStatus::Authenticated(ref a) => a.auth_id >= 0 && a.user_id >= 0,
            AuthenticationStatus::Unauthenticated => true,
        }
    }
}

/// Maps the reply of the token validator to a status.  Only a verdict that
/// answered with `is_authenticated` set counts; everything else collapses to
/// `Unauthenticated`.
pub fn status_of(resp: Option<Verdict>) -> (r: AuthenticationStatus)
    ensures
        (r is Authenticated) == (resp matches Some(v) && v.is_authenticated),
        resp matches Some(v) ==> v.is_authenticated ==> (r matches
            AuthenticationStatus::Authenticated(a) && a.auth_id == v.auth_id && a.user_id
            == v.user_id && a.username == v.username && a.is_one_time_jwt == v.is_one_time_jwt),
{
    match resp {
        Some(v) => {
            if v.is_authenticated {
                AuthenticationStatus::Authenticated(
                    Authenticated {
                        auth_id: v.auth_id,
                        user_id: v.user_id,
                        username: v.username,
                        is_one_time_jwt: v.is_one_time_jwt,
                    },
                )
            } else {
                AuthenticationStatus::Unauthenticated
            }
        },
        None => AuthenticationStatus::Unauthenticated,
    }
}

/// Whether the textual principal id of a request names the acting
/// principal: it must be the canonical rendering of that principal's id.
pub open spec fn acts_as_self(user_id_text: Seq<char>, principal: int) -> bool {
    user_id_text == u64_dec(principal as nat)
}

/// Gates a creation request: the principal must be authenticated and may
/// only create content as itself; creating on another's behalf fails with
/// `Forbidden`.
pub fn create_gate(status: &AuthenticationStatus, user_id_text: &str) -> (r: Result<i64, ApiError>)
    requires
        status.wf(),
    ensures
        status is Unauthenticated ==> (r matches Err(e) && e == ApiError::Unauthenticated),
        status matches AuthenticationStatus::Authenticated(a) ==> if acts_as_self(
            user_id_text@,
            a.user_id as int,
        ) {
            r matches Ok(id) && id == a.user_id
        } else {
            r matches Err(e) && e == ApiError::Forbidden
        },
{
    let acting = match status {
        AuthenticationStatus::Authenticated(a) => a,
        AuthenticationStatus::Unauthenticated => {
            return Err(ApiError::Unauthenticated);
        },
    };
    let rendered = u64_to_string(acting.user_id as u64);
    let matches_self = {
        let claimed = String::from_str(user_id_text);
        claimed == rendered
    };
    if matches_self {
        Ok(acting.user_id)
    } else {
        Err(ApiError::Forbidden)
    }
}

/// Decides a deletion request: the row must exist and the acting principal
/// must own it; deleting another's content fails with `Forbidden`.  On
/// success the id of the row to delete is returned.
pub fn delete_gate(status: &AuthenticationStatus, owner_id: Option<(i64, i64)>) -> (r: Result<
    i64,
    ApiError,
>)
    ensures
        status is Unauthenticated ==> (r matches Err(e) && e == ApiError::Unauthenticated),
        status is Authenticated && owner_id is None ==> (r matches Err(e) && e
            == ApiError::NotFound),
        owner_id matches Some(row) ==> match *status {
            AuthenticationStatus::Authenticated(a) => if row.1 == a.user_id {
                r matches Ok(id) && id == row.0
            } else {
                r matches Err(e) && e == ApiError::Forbidden
            },
            AuthenticationStatus::Unauthenticated => true,
        },
{
    let acting = match status {
        AuthenticationStatus::Authenticated(a) => a,
        AuthenticationStatus::Unauthenticated => {
            return Err(ApiError::Unauthenticated);
        },
    };
    match owner_id {
        Some((row_id, owner)) => {
            if owner == acting.user_id {
                Ok(row_id)
            } else {
                Err(ApiError::Forbidden)
            }
        },
        None => Err(ApiError::NotFound),
    }
}

} // verus!
