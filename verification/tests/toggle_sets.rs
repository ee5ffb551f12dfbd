use trending::common::{convert_set_to_string, convert_string_to_set};
use trending::idset::{toggle_membership, IdSet};
use trending::numstr::{parse_id, u64_to_string};
use trending::ratings::{apply_upvote, fresh_rating, upvote};
use trending::server_auth::{Authenticated, AuthenticationStatus};
use trending::users::{apply_follow, change_follow_user, Profile};
use trending::ApiError;

fn set_of(members: &[i64]) -> IdSet {
    let mut s = IdSet::new();
    for &m in members {
        let (next, added) = toggle_membership(s, m);
        assert!(added);
        s = next;
    }
    s
}

fn authenticated(user_id: i64) -> AuthenticationStatus {
    AuthenticationStatus::Authenticated(Authenticated {
        auth_id: user_id,
        user_id,
        username: String::from("who"),
        is_one_time_jwt: false,
    })
}

fn profile(id: i64) -> Profile {
    Profile {
        id,
        auth_id: id,
        full_name: String::from("someone"),
        description: None,
        profile_picture: None,
        location_or_region: None,
        following: IdSet::new(),
        followers: IdSet::new(),
    }
}

#[test]
fn toggle_adds_then_removes() {
    let s = IdSet::new();
    assert_eq!(s.len(), 0);
    assert!(!s.contains(42));
    let (s, added) = toggle_membership(s, 42);
    assert!(added);
    assert!(s.contains(42));
    assert_eq!(s.len(), 1);
    let (s, added) = toggle_membership(s, 42);
    assert!(!added);
    assert!(!s.contains(42));
    assert_eq!(s.len(), 0);
}

#[test]
fn toggle_twice_restores_the_original_set() {
    let s = set_of(&[3, 1, 7]);
    let (once, added) = toggle_membership(s, 5);
    assert!(added);
    let (twice, added_again) = toggle_membership(once, 5);
    assert!(!added_again);
    assert_eq!(convert_set_to_string(&twice), String::from("1, 3, 7"));
    assert_eq!(twice.len(), 3);
}

#[test]
fn set_string_round_trips() {
    let empty = IdSet::new();
    assert_eq!(convert_set_to_string(&empty), String::new());
    let back = convert_string_to_set("").expect("the empty string is the empty set");
    assert_eq!(back.len(), 0);

    let single = set_of(&[5]);
    let text = convert_set_to_string(&single);
    assert_eq!(text, String::from("5"));
    let back = convert_string_to_set(text.as_str()).expect("own encoding parses");
    assert!(back.contains(5));
    assert_eq!(back.len(), 1);

    let several = set_of(&[30, 1, 2]);
    let text = convert_set_to_string(&several);
    assert_eq!(text, String::from("1, 2, 30"));
    let back = convert_string_to_set(text.as_str()).expect("own encoding parses");
    assert!(back.contains(1) && back.contains(2) && back.contains(30));
    assert!(!back.contains(3));
    assert_eq!(back.len(), 3);
}

#[test]
fn set_strings_that_are_not_canonical_are_refused() {
    assert!(convert_string_to_set("2, 1").is_none());
    assert!(convert_string_to_set("1, 1").is_none());
    assert!(convert_string_to_set("01").is_none());
    assert!(convert_string_to_set("1,2").is_none());
    assert!(convert_string_to_set("1, 2,").is_none());
    assert!(convert_string_to_set("1, 2, ").is_none());
    assert!(convert_string_to_set(", 1").is_none());
    assert!(convert_string_to_set("a").is_none());
    assert!(convert_string_to_set("-1").is_none());
    assert!(convert_string_to_set("1 2").is_none());
}

#[test]
fn decimal_rendering_and_id_parsing_invert() {
    assert_eq!(u64_to_string(0), String::from("0"));
    assert_eq!(u64_to_string(7), String::from("7"));
    assert_eq!(u64_to_string(1234567890), String::from("1234567890"));
    assert_eq!(u64_to_string(u64::MAX), String::from("18446744073709551615"));
    assert_eq!(parse_id("0"), Some(0));
    assert_eq!(parse_id("9223372036854775807"), Some(i64::MAX));
    assert_eq!(parse_id("9223372036854775808"), None);
    assert_eq!(parse_id("007"), None);
    assert_eq!(parse_id(""), None);
    assert_eq!(parse_id("12x"), None);
    assert_eq!(parse_id("-3"), None);
}

#[test]
fn two_upvotes_by_the_same_principal_cancel_out() {
    let rating = fresh_rating(9);
    let status = authenticated(7);
    let (rating, resp) = upvote(&status, Some(rating)).unwrap();
    assert_eq!(rating.upvotes, 1);
    assert!(resp.is_upvoted);
    assert_eq!(resp.id, String::from("9"));
    let (rating, resp) = upvote(&status, Some(rating)).unwrap();
    assert_eq!(rating.upvotes, 0);
    assert!(!resp.is_upvoted);
    assert!(!rating.upvoted_by.contains(7));
}

#[test]
fn distinct_principals_each_count_once() {
    let mut rating = fresh_rating(9);
    for principal in [4, 2, 8, 6, 10] {
        let (next, added) = apply_upvote(rating, principal);
        assert!(added);
        rating = next;
    }
    assert_eq!(rating.upvotes, 5);
    assert_eq!(rating.upvoted_by.len(), 5);
    // Toggling one voter off keeps count and set in step.
    let (rating, added) = apply_upvote(rating, 8);
    assert!(!added);
    assert_eq!(rating.upvotes, 4);
    assert_eq!(rating.upvoted_by.len(), 4);
}

#[test]
fn upvote_requires_authentication_and_a_row() {
    match upvote(&AuthenticationStatus::Unauthenticated, Some(fresh_rating(1))) {
        Err(e) => assert_eq!(e, ApiError::Unauthenticated),
        Ok(_) => panic!("an unauthenticated principal must not vote"),
    }
    match upvote(&authenticated(7), None) {
        Err(e) => assert_eq!(e, ApiError::NotFound),
        Ok(_) => panic!("a missing rating row must be reported"),
    }
}

#[test]
fn follow_then_unfollow_leaves_both_sides_empty() {
    let a = profile(1);
    let b = profile(2);
    let (a, b, resp) = match change_follow_user(&authenticated(1), "2", Some(a), Some(b)) {
        Ok(out) => out,
        Err(_) => panic!("a valid follow request must go through"),
    };
    assert!(resp.is_following);
    assert_eq!(resp.following_id, String::from("2"));
    assert!(a.following.contains(2));
    assert!(b.followers.contains(1));
    let (a, b, resp) = match change_follow_user(&authenticated(1), "2", Some(a), Some(b)) {
        Ok(out) => out,
        Err(_) => panic!("the second toggle must go through too"),
    };
    assert!(!resp.is_following);
    assert_eq!(a.following.len(), 0);
    assert_eq!(b.followers.len(), 0);
}

#[test]
fn follow_request_failures_are_classified() {
    match change_follow_user(
        &AuthenticationStatus::Unauthenticated,
        "2",
        Some(profile(1)),
        Some(profile(2)),
    ) {
        Err(e) => assert_eq!(e, ApiError::Unauthenticated),
        Ok(_) => panic!("authentication is required"),
    }
    match change_follow_user(&authenticated(1), "x2", Some(profile(1)), Some(profile(2))) {
        Err(e) => assert_eq!(e, ApiError::Unavailable),
        Ok(_) => panic!("a malformed target id must be refused"),
    }
    match change_follow_user(&authenticated(1), "2", None, Some(profile(2))) {
        Err(e) => assert_eq!(e, ApiError::NotFound),
        Ok(_) => panic!("a missing follower row must be reported"),
    }
    match change_follow_user(&authenticated(1), "2", Some(profile(1)), None) {
        Err(e) => assert_eq!(e, ApiError::NotFound),
        Ok(_) => panic!("a missing followee row must be reported"),
    }
    match change_follow_user(&authenticated(1), "1", Some(profile(1)), Some(profile(1))) {
        Err(e) => assert_eq!(e, ApiError::Conflict),
        Ok(_) => panic!("a self-follow must be refused"),
    }
    match change_follow_user(&authenticated(3), "2", Some(profile(1)), Some(profile(2))) {
        Err(e) => assert_eq!(e, ApiError::Internal),
        Ok(_) => panic!("a follower row for the wrong principal must be reported"),
    }
}

#[test]
fn follow_keeps_asymmetric_rows_in_agreement() {
    // The follower already lists the followee, but the followee's row lost
    // the back-edge: one toggle repairs the pair into agreement.
    let mut a = profile(1);
    let (following, added) = toggle_membership(a.following, 2);
    assert!(added);
    a.following = following;
    let b = profile(2);
    let (a, b, was_added) = apply_follow(a, b);
    assert!(!was_added);
    assert!(!a.following.contains(2));
    assert!(!b.followers.contains(1));
}
