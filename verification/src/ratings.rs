//! Engagement counters and the upvote toggle.
//!
//! A rating row holds an upvote count and the set of principals that have
//! upvoted it.  The count is never stored on its own authority: every
//! mutation goes through `apply_upvote`, which toggles membership and moves
//! the count by exactly one in step, so a well-formed rating always has
//! `upvotes` equal to the cardinality of `upvoted_by` — however many toggles,
//! by however many principals, have been applied.

use crate::idset::{toggle_membership, IdSet};
use crate::numstr::{parse_id, u64_dec, u64_to_string};
use crate::server_auth::AuthenticationStatus;
use crate::ApiError;
use vstd::prelude::*;
use vstd::string::*;

verus! {

/// A stored rating row.
#[derive(Clone)]
pub struct Rating {
    pub id: i64,
    pub upvotes: u64,
    pub upvoted_by: IdSet,
}

impl Rating {
    /// The count invariant: `upvotes` always equals the number of distinct
    /// principals currently in the upvoted state.
    pub open spec fn wf(&self) -> bool {
        &&& self.id >= 0
        &&& self.upvoted_by.wf()
        &&& self.upvotes == self.upvoted_by@.len()
    }
}

/// A rating projected for callers.
pub struct RatingsDetails {
    pub id: i32,
    pub upvotes: String,
    pub views: String,
}

/// The outcome of an upvote toggle as callers see it.
pub struct UpvoteResponse {
    pub id: String,
    pub is_upvoted: bool,
}

/// A fresh rating row as created beside new content: no upvotes yet.
pub fn fresh_rating(id: i64) -> (r: Rating)
    requires
        id >= 0,
    ensures
        r.wf(),
        r.id == id,
        r.upvotes == 0,
        r.upvoted_by@ == Set::<i64>::empty(),
{
    let r = Rating { id, upvotes: 0, upvoted_by: IdSet::new() };
    proof {
        r.upvoted_by.lemma_card();
    }
    r
}

/// Toggles `principal_id`'s upvote on the rating.
///
/// The membership flip and the count move by exactly one happen together,
/// so the count invariant is preserved and never double-counts: the delta is
/// `+1` or `-1` per call, never more.
pub fn apply_upvote(rating: Rating, principal_id: i64) -> (r: (Rating, bool))
    requires
        rating.wf(),
        principal_id >= 0,
        rating.upvotes < u64::MAX,
    ensures
        r.0.wf(),
        r.0.id == rating.id,
        r.1 == !rating.upvoted_by@.contains(principal_id),
        r.0.upvoted_by@ == if r.1 {
            rating.upvoted_by@.insert(principal_id)
        } else {
            rating.upvoted_by@.remove(principal_id)
        },
        r.0.upvotes == if r.1 {
            rating.upvotes + 1
        } else {
            rating.upvotes - 1
        } as int,
        r.0.upvoted_by@.contains(principal_id) == r.1,
{
    let ghost before = rating.upvoted_by@;
    let (new_set, was_added) = toggle_membership(rating.upvoted_by, principal_id);
    let new_count = if was_added {
        rating.upvotes + 1
    } else {
        rating.upvotes - 1
    };
    (Rating { id: rating.id, upvotes: new_count, upvoted_by: new_set }, was_added)
}

/// The upvote count invariant, as one toggle step: when the count equals the
/// cardinality of the upvoter set, moving both together — insert and add one,
/// or remove and subtract one — keeps them equal.  Since every mutation of a
/// rating goes through `apply_upvote`, which moves exactly this way, any
/// sequence of toggles by any principals leaves `upvotes` equal to the number
/// of principals currently in the upvoted state.
pub proof fn lemma_upvote_count_invariant(voters: Set<i64>, count: int, principal: i64)
    requires
        voters.finite(),
        count == voters.len(),
    ensures
        !voters.contains(principal) ==> voters.insert(principal).len() == count + 1,
        voters.contains(principal) ==> voters.remove(principal).len() == count - 1,
{
}

/// Carries out an upvote request against the fetched rating row.
///
/// Any authenticated principal may vote; a missing row fails with
/// `NotFound`.  The response reports the acting principal's resulting state
/// and echoes the rating id.
pub fn upvote(status: &AuthenticationStatus, rating: Option<Rating>) -> (r: Result<
    (Rating, UpvoteResponse),
    ApiError,
>)
    requires
        status.wf(),
        rating matches Some(rt) ==> rt.wf() && rt.upvotes < u64::MAX,
    ensures
        status is Unauthenticated ==> (r matches Err(e) && e == ApiError::Unauthenticated),
        status is Authenticated && rating is None ==> (r matches Err(e) && e == ApiError::NotFound),
        rating matches Some(rt) ==> match *status {
            AuthenticationStatus::Authenticated(a) => r matches Ok(out) && out.0.wf() && out.0.id
                == rt.id && out.1.is_upvoted == !rt.upvoted_by@.contains(a.user_id)
                && out.0.upvoted_by@ == (if out.1.is_upvoted {
                rt.upvoted_by@.insert(a.user_id)
            } else {
                rt.upvoted_by@.remove(a.user_id)
            }) && out.0.upvotes == (if out.1.is_upvoted {
                rt.upvotes + 1
            } else {
                rt.upvotes - 1
            } as int) && out.1.id@ == u64_dec(rt.id as nat),
            AuthenticationStatus::Unauthenticated => true,
        },
{
    let acting = match status {
        AuthenticationStatus::Authenticated(a) => a,
        AuthenticationStatus::Unauthenticated => {
            return Err(ApiError::Unauthenticated);
        },
    };
    let rt = match rating {
        Some(rt) => rt,
        None => {
            return Err(ApiError::NotFound);
        },
    };
    let ghost rid = rt.id;
    let id_text = u64_to_string(rt.id as u64);
    let (updated, is_upvoted) = apply_upvote(rt, acting.user_id);
    let response = UpvoteResponse { id: id_text, is_upvoted };
    proof {
        assert(response.id@ == u64_dec(rid as nat));
    }
    Ok((updated, response))
}

/// Projects a rating row for callers, rendering the counters as text.
pub fn ratings_details(r: &Rating, views: u64) -> (d: RatingsDetails)
    requires
        r.wf(),
        r.id <= i32::MAX,
    ensures
        d.id == r.id,
        d.upvotes@ == u64_dec(r.upvotes as nat),
        d.views@ == u64_dec(views as nat),
{
    RatingsDetails {
        id: r.id as i32,
        upvotes: u64_to_string(r.upvotes),
        views: u64_to_string(views),
    }
}

} // verus!
