//! Principals and the symmetric follow relation.
//!
//! A principal owns two set-valued relations: `following` and `followers`.
//! `apply_follow` toggles one edge of the follow graph on both sides at
//! once — the followee joins or leaves the follower's `following` exactly
//! when the follower joins or leaves the followee's `followers` — so the two
//! rows always agree and neither ever contains its owner's id.  The whole
//! two-row update is computed here as one unit; the caller persists both
//! rows inside a single transactional boundary.

use crate::idset::{toggle_membership, IdSet};
use crate::numstr::{is_canonical_id, lemma_u64_dec_props, parse_id, u64_dec, u64_to_string};
use crate::server_auth::{Authenticated, AuthenticationStatus};
use crate::ApiError;
use vstd::prelude::*;
use vstd::string::*;

verus! {

/// A stored principal row.
#[derive(Clone)]
pub struct Profile {
    pub id: i64,
    pub auth_id: i64,
    pub full_name: String,
    pub description: Option<String>,
    pub profile_picture: Option<String>,
    pub location_or_region: Option<String>,
    pub following: IdSet,
    pub followers: IdSet,
}

impl Profile {
    /// Ids are store-assigned; the relation sets are well-formed and never
    /// contain the principal's own id.
    pub open spec fn wf(&self) -> bool {
        &&& self.id >= 0
        &&& self.auth_id >= 0
        &&& self.following.wf()
        &&& self.followers.wf()
        &&& !self.following@.contains(self.id)
        &&& !self.followers@.contains(self.id)
    }
}

/// The row inserted when a principal is registered; the store assigns the
/// id, and both relation sets start empty.
pub struct NewProfile {
    pub auth_id: i64,
    pub full_name: String,
    pub description: Option<String>,
    pub profile_picture: Option<String>,
    pub location_or_region: Option<String>,
    pub following: IdSet,
    pub followers: IdSet,
    pub created_at: i64,
}

/// The mutable profile fields a principal may edit.
pub struct UserModify {
    pub full_name: String,
    pub description: Option<String>,
    pub profile_picture: Option<String>,
    pub location_or_region: Option<String>,
}

/// The profile fields echoed back to callers.
pub struct UserDetails {
    pub id: i32,
    pub auth_id: Option<i32>,
    pub full_name: String,
    pub description: Option<String>,
    pub profile_picture: Option<String>,
    pub location_or_region: Option<String>,
}

/// The outcome of a follow toggle as callers see it.
pub struct FollowResponse {
    pub following_id: String,
    pub is_following: bool,
}

/// Toggles the follow edge from `follower` to `followee`, symmetrically.
///
/// If the follower was not yet following, the followee's id joins the
/// follower's `following` and the follower's id joins the followee's
/// `followers`; otherwise both leave.  The reported state is read from the
/// follower's updated `following` set, and both sides agree on it.
pub fn apply_follow(follower: Profile, followee: Profile) -> (r: (Profile, Profile, bool))
    requires
        follower.wf(),
        followee.wf(),
        follower.id != followee.id,
    ensures
        r.2 == !follower.following@.contains(followee.id),
        r.0.wf(),
        r.1.wf(),
        r.0.following@ == if r.2 {
            follower.following@.insert(followee.id)
        } else {
            follower.following@.remove(followee.id)
        },
        r.1.followers@ == if r.2 {
            followee.followers@.insert(follower.id)
        } else {
            followee.followers@.remove(follower.id)
        },
        r.0.following@.contains(followee.id) == r.2,
        r.1.followers@.contains(follower.id) == r.2,
        r.0.id == follower.id && r.0.auth_id == follower.auth_id && r.0.full_name
            == follower.full_name && r.0.description == follower.description && r.0.profile_picture
            == follower.profile_picture && r.0.location_or_region == follower.location_or_region
            && r.0.followers == follower.followers,
        r.1.id == followee.id && r.1.auth_id == followee.auth_id && r.1.full_name
            == followee.full_name && r.1.description == followee.description && r.1.profile_picture
            == followee.profile_picture && r.1.location_or_region == followee.location_or_region
            && r.1.following == followee.following,
{
    let follower_id = follower.id;
    let followee_id = followee.id;
    let (new_following, was_added) = toggle_membership(follower.following, followee_id);
    let already_listed = followee.followers.contains(follower_id);
    let new_followers = if was_added != already_listed {
        let (toggled, _) = toggle_membership(followee.followers, follower_id);
        toggled
    } else {
        followee.followers
    };
    let updated_follower = Profile { following: new_following, ..follower };
    let updated_followee = Profile { followers: new_followers, ..followee };
    proof {
        if was_added == already_listed {
            if was_added {
                assert(updated_followee.followers@ =~= followee.followers@.insert(follower_id));
            } else {
                assert(updated_followee.followers@ =~= followee.followers@.remove(follower_id));
            }
        }
    }
    (updated_follower, updated_followee, was_added)
}

/// Following and unfollowing in turn leaves both relation sides exactly
/// where they began: the toggle is its own inverse on the follower's
/// `following` and on the followee's `followers` alike.
pub proof fn lemma_follow_roundtrip(following: Set<i64>, followers: Set<i64>, follower_id: i64, followee_id: i64)
    requires
        !following.contains(followee_id),
        !followers.contains(follower_id),
    ensures
        following.insert(followee_id).remove(followee_id) == following,
        followers.insert(follower_id).remove(follower_id) == followers,
        following.insert(followee_id).contains(followee_id),
        followers.insert(follower_id).contains(follower_id),
{
    assert(following.insert(followee_id).remove(followee_id) =~= following);
    assert(followers.insert(follower_id).remove(follower_id) =~= followers);
}

/// Carries out a follow request against the two fetched principal rows.
///
/// The acting principal must be authenticated (any principal may follow);
/// a target id that is not a canonical decimal fails with `Unavailable`, an
/// absent row with `NotFound`, a row that does not match the requested id or
/// the acting principal with `Internal`, and a self-follow — which would put
/// an id into its own relation sets — with `Conflict`.  On two well-matched
/// rows the toggle always goes through, and the result restates everything
/// `apply_follow` fixes: both relation sides, their agreement, and every
/// untouched field of both rows.
pub fn change_follow_user(
    status: &AuthenticationStatus,
    follow_id: &str,
    follower: Option<Profile>,
    followee: Option<Profile>,
) -> (r: Result<(Profile, Profile, FollowResponse), ApiError>)
    requires
        status.wf(),
        follower matches Some(p) ==> p.wf(),
        followee matches Some(p) ==> p.wf(),
    ensures
        status is Unauthenticated ==> (r matches Err(e) && e == ApiError::Unauthenticated),
        status matches AuthenticationStatus::Authenticated(a) ==> (if !is_canonical_id(
            follow_id@,
        ) {
            r matches Err(e) && e == ApiError::Unavailable
        } else if follower is None || followee is None {
            r matches Err(e) && e == ApiError::NotFound
        } else if follower->Some_0.id != a.user_id || follow_id@ != u64_dec(
            followee->Some_0.id as nat,
        ) {
            r matches Err(e) && e == ApiError::Internal
        } else if follower->Some_0.id == followee->Some_0.id {
            r matches Err(e) && e == ApiError::Conflict
        } else {
            r matches Ok(out) && {
                let fr = follower->Some_0;
                let fe = followee->Some_0;
                &&& out.2.is_following == !fr.following@.contains(fe.id)
                &&& out.0.wf() && out.1.wf()
                &&& out.0.id == fr.id && out.1.id == fe.id
                &&& out.0.following@ == (if out.2.is_following {
                    fr.following@.insert(fe.id)
                } else {
                    fr.following@.remove(fe.id)
                })
                &&& out.1.followers@ == (if out.2.is_following {
                    fe.followers@.insert(fr.id)
                } else {
                    fe.followers@.remove(fr.id)
                })
                &&& out.0.following@.contains(fe.id) == out.2.is_following
                &&& out.1.followers@.contains(fr.id) == out.2.is_following
                &&& out.0.followers == fr.followers
                &&& out.1.following == fe.following
                &&& out.0.auth_id == fr.auth_id && out.0.full_name == fr.full_name
                    && out.0.description == fr.description && out.0.profile_picture
                    == fr.profile_picture && out.0.location_or_region == fr.location_or_region
                &&& out.1.auth_id == fe.auth_id && out.1.full_name == fe.full_name
                    && out.1.description == fe.description && out.1.profile_picture
                    == fe.profile_picture && out.1.location_or_region == fe.location_or_region
                &&& out.2.following_id@ == u64_dec(fe.id as nat)
            }
        }),
{
    let acting = match status {
        AuthenticationStatus::Authenticated(a) => a,
        AuthenticationStatus::Unauthenticated => {
            return Err(ApiError::Unauthenticated);
        },
    };
    let target_id = match parse_id(follow_id) {
        Some(v) => v,
        None => {
            return Err(ApiError::Unavailable);
        },
    };
    proof {
        assert(is_canonical_id(follow_id@)) by {
            assert(target_id as nat <= i64::MAX && follow_id@ == u64_dec(target_id as nat));
        }
    }
    let follower = match follower {
        Some(p) => p,
        None => {
            return Err(ApiError::NotFound);
        },
    };
    let followee = match followee {
        Some(p) => p,
        None => {
            return Err(ApiError::NotFound);
        },
    };
    proof {
        // The requested id spells the followee's id exactly when the two
        // values agree: canonical renderings are injective.
        lemma_u64_dec_props(followee.id as nat);
        lemma_u64_dec_props(target_id as nat);
    }
    if follower.id != acting.user_id || followee.id != target_id {
        return Err(ApiError::Internal);
    }
    if follower.id == followee.id {
        return Err(ApiError::Conflict);
    }
    let ghost fe_id = followee.id;
    let (updated_follower, updated_followee, is_following) = apply_follow(follower, followee);
    let response = FollowResponse {
        following_id: u64_to_string(target_id as u64),
        is_following,
    };
    proof {
        assert(response.following_id@ == u64_dec(fe_id as nat));
    }
    Ok((updated_follower, updated_followee, response))
}

/// Lays out the principal row to insert for a fresh registration: the
/// profile fields as given, empty relation sets, and the creation time.
pub fn build_profile(auth_id: i64, user: UserModify, now: i64) -> (r: NewProfile)
    requires
        auth_id >= 0,
    ensures
        r.auth_id == auth_id,
        r.full_name == user.full_name,
        r.description == user.description,
        r.profile_picture == user.profile_picture,
        r.location_or_region == user.location_or_region,
        r.following@ == Set::<i64>::empty(),
        r.followers@ == Set::<i64>::empty(),
        r.following.wf() && r.followers.wf(),
        r.created_at == now,
{
    NewProfile {
        auth_id,
        full_name: user.full_name,
        description: user.description,
        profile_picture: user.profile_picture,
        location_or_region: user.location_or_region,
        following: IdSet::new(),
        followers: IdSet::new(),
        created_at: now,
    }
}

/// Replaces the editable fields of the acting principal's profile.  Any
/// authenticated principal may edit its own profile; an absent row fails
/// with `NotFound`.
pub fn update_user(
    status: &AuthenticationStatus,
    profile: Option<Profile>,
    user_modify: UserModify,
) -> (r: Result<Profile, ApiError>)
    ensures
        status is Unauthenticated ==> (r matches Err(e) && e == ApiError::Unauthenticated),
        status is Authenticated && profile is None ==> (r matches Err(e) && e
            == ApiError::NotFound),
        profile matches Some(p) ==> status is Authenticated ==> (r matches Ok(p2) && p2.full_name
            == user_modify.full_name && p2.description == user_modify.description
            && p2.profile_picture == user_modify.profile_picture && p2.location_or_region
            == user_modify.location_or_region && p2.id == p.id && p2.auth_id == p.auth_id
            && p2.following == p.following && p2.followers == p.followers),
{
    match status {
        AuthenticationStatus::Authenticated(_) => match profile {
            Some(p) => Ok(
                Profile {
                    full_name: user_modify.full_name,
                    description: user_modify.description,
                    profile_picture: user_modify.profile_picture,
                    location_or_region: user_modify.location_or_region,
                    ..p
                },
            ),
            None => Err(ApiError::NotFound),
        },
        AuthenticationStatus::Unauthenticated => Err(ApiError::Unauthenticated),
    }
}

/// Projects a principal row into the caller-facing details shape.
pub fn user_details(p: Profile) -> (r: UserDetails)
    requires
        p.id <= i32::MAX,
        p.auth_id <= i32::MAX,
        p.wf(),
    ensures
        r.id == p.id,
        r.auth_id matches Some(a) && a == p.auth_id,
        r.full_name == p.full_name,
        r.description == p.description,
        r.profile_picture == p.profile_picture,
        r.location_or_region == p.location_or_region,
{
    UserDetails {
        id: p.id as i32,
        auth_id: Some(p.auth_id as i32),
        full_name: p.full_name,
        description: p.description,
        profile_picture: p.profile_picture,
        location_or_region: p.location_or_region,
    }
}

} // verus!
