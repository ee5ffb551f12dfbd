use trending::auth::{
    auth_response, build_credential, change_contact_number, change_email, change_username,
    delete_user, AuthModify, Credential,
};
use trending::buzz::{build_buzz, buzz_to_result, Buzz, BuzzInput};
use trending::claims::{request_type_of, RequestType};
use trending::ratings::{fresh_rating, ratings_details};
use trending::reply::{build_reply, reply_to_result, Reply, ReplyInput};
use trending::server_auth::{create_gate, delete_gate, status_of, Authenticated, AuthenticationStatus};
use trending::users::{build_profile, update_user, user_details, Profile, UserModify};
use trending::auth::Verdict;
use trending::ApiError;

fn authenticated(user_id: i64, one_time: bool) -> AuthenticationStatus {
    AuthenticationStatus::Authenticated(Authenticated {
        auth_id: user_id,
        user_id,
        username: String::from("who"),
        is_one_time_jwt: one_time,
    })
}

fn buzz_input(user_id: &str) -> BuzzInput {
    BuzzInput {
        user_id: String::from(user_id),
        description: String::from("hello"),
        image_link: None,
        video_link: Some(String::from("v")),
        buzz_words: None,
        mentioned_users: None,
    }
}

#[test]
fn request_type_resolution() {
    assert_eq!(request_type_of("login"), Some(RequestType::Login));
    assert_eq!(request_type_of("one-time-jwt"), Some(RequestType::OneTimeJwt));
    assert_eq!(request_type_of("refresh"), None);
    assert_eq!(request_type_of(""), None);
}

#[test]
fn create_gate_enforces_acting_as_self() {
    match create_gate(&authenticated(3, false), "3") {
        Ok(id) => assert_eq!(id, 3),
        Err(_) => panic!("a principal may create content as itself"),
    }
    match create_gate(&authenticated(3, false), "4") {
        Err(e) => assert_eq!(e, ApiError::Forbidden),
        Ok(_) => panic!("creating on another's behalf must be refused"),
    }
    // Only the canonical spelling of the id names the principal.
    match create_gate(&authenticated(3, false), "03") {
        Err(e) => assert_eq!(e, ApiError::Forbidden),
        Ok(_) => panic!("a non-canonical id must be refused"),
    }
    match create_gate(&AuthenticationStatus::Unauthenticated, "3") {
        Err(e) => assert_eq!(e, ApiError::Unauthenticated),
        Ok(_) => panic!("authentication is required"),
    }
}

#[test]
fn delete_gate_enforces_ownership() {
    match delete_gate(&authenticated(3, false), Some((77, 3))) {
        Ok(id) => assert_eq!(id, 77),
        Err(_) => panic!("the owner may delete its content"),
    }
    match delete_gate(&authenticated(3, false), Some((77, 4))) {
        Err(e) => assert_eq!(e, ApiError::Forbidden),
        Ok(_) => panic!("deleting another's content must be refused"),
    }
    match delete_gate(&authenticated(3, false), None) {
        Err(e) => assert_eq!(e, ApiError::NotFound),
        Ok(_) => panic!("a missing row must be reported"),
    }
    match delete_gate(&AuthenticationStatus::Unauthenticated, Some((77, 3))) {
        Err(e) => assert_eq!(e, ApiError::Unauthenticated),
        Ok(_) => panic!("authentication is required"),
    }
}

#[test]
fn buzz_rows_project_with_rendered_ids() {
    let row = build_buzz(buzz_input("3"), 3, 12, 1_700_000_000);
    assert_eq!(row.user_id, 3);
    assert_eq!(row.ratings_id, 12);
    let stored = Buzz {
        id: 100,
        user_id: row.user_id,
        description: row.description,
        image_link: row.image_link,
        video_link: row.video_link,
        buzz_words: row.buzz_words,
        mentioned_users: row.mentioned_users,
        ratings_id: Some(row.ratings_id),
        created_at: row.created_at,
    };
    let out = buzz_to_result(stored);
    assert_eq!(out.id, String::from("100"));
    assert_eq!(out.user_id, String::from("3"));
    assert_eq!(out.ratings_id, Some(String::from("12")));
    assert_eq!(out.description, String::from("hello"));
    assert_eq!(out.created_at, 1_700_000_000);
}

#[test]
fn a_buzz_without_a_rating_projects_minus_one() {
    let stored = Buzz {
        id: 1,
        user_id: 2,
        description: String::from("d"),
        image_link: None,
        video_link: None,
        buzz_words: None,
        mentioned_users: None,
        ratings_id: None,
        created_at: 0,
    };
    let out = buzz_to_result(stored);
    assert_eq!(out.ratings_id, Some(String::from("-1")));
}

#[test]
fn reply_rows_parse_their_buzz_reference() {
    let input = ReplyInput {
        user_id: String::from("3"),
        buzz_id: String::from("41"),
        reply_content: String::from("re"),
        buzz_words: None,
        mentioned_users: None,
    };
    let row = build_reply(input, 3, 13, 5).unwrap();
    assert_eq!(row.buzz_id, 41);
    let stored = Reply {
        id: 6,
        user_id: row.user_id,
        buzz_id: row.buzz_id,
        reply_content: row.reply_content,
        buzz_words: row.buzz_words,
        mentioned_users: row.mentioned_users,
        ratings_id: Some(row.ratings_id),
        created_at: row.created_at,
    };
    let out = reply_to_result(stored);
    assert_eq!(out.id, String::from("6"));
    assert_eq!(out.buzz_id, String::from("41"));
    assert_eq!(out.ratings_id, Some(String::from("13")));

    let bad = ReplyInput {
        user_id: String::from("3"),
        buzz_id: String::from("4x"),
        reply_content: String::from("re"),
        buzz_words: None,
        mentioned_users: None,
    };
    match build_reply(bad, 3, 13, 5) {
        Err(e) => assert_eq!(e, ApiError::Unavailable),
        Ok(_) => panic!("a malformed buzz reference must be refused"),
    }
}

#[test]
fn profiles_build_update_and_project() {
    let row = build_profile(
        8,
        UserModify {
            full_name: String::from("Alice A"),
            description: Some(String::from("hi")),
            profile_picture: None,
            location_or_region: None,
        },
        77,
    );
    assert_eq!(row.auth_id, 8);
    assert_eq!(row.created_at, 77);
    let profile = Profile {
        id: 10,
        auth_id: row.auth_id,
        full_name: row.full_name,
        description: row.description,
        profile_picture: row.profile_picture,
        location_or_region: row.location_or_region,
        following: row.following,
        followers: row.followers,
    };
    let updated = update_user(
        &authenticated(10, false),
        Some(profile),
        UserModify {
            full_name: String::from("Alice B"),
            description: None,
            profile_picture: Some(String::from("p")),
            location_or_region: Some(String::from("here")),
        },
    )
    .unwrap();
    assert_eq!(updated.full_name, String::from("Alice B"));
    assert_eq!(updated.id, 10);
    let details = user_details(updated);
    assert_eq!(details.id, 10);
    assert_eq!(details.auth_id, Some(8));
    assert_eq!(details.profile_picture, Some(String::from("p")));

    match update_user(
        &AuthenticationStatus::Unauthenticated,
        None,
        UserModify {
            full_name: String::new(),
            description: None,
            profile_picture: None,
            location_or_region: None,
        },
    ) {
        Err(e) => assert_eq!(e, ApiError::Unauthenticated),
        Ok(_) => panic!("authentication is required"),
    }
}

#[test]
fn credential_mutations_gate_on_the_one_time_window() {
    let auth = AuthModify {
        username: String::from("bob"),
        email: String::from("bob@example.com"),
        contact_number: None,
        password: String::from("pw"),
    };
    let row = build_credential(&auth, "key");
    assert_eq!(row.password_version, 0);
    let cred = Credential {
        id: 2,
        username: row.username,
        email: row.email,
        contact_number: row.contact_number,
        password_hash: row.password_hash,
        password_version: row.password_version,
    };
    match change_username(&authenticated(5, false), None, String::from("carol")) {
        Err(e) => assert_eq!(e, ApiError::Unauthenticated),
        Ok(_) => panic!("a session token must not rename the account"),
    }
    let renamed = change_username(&authenticated(5, true), Some(cred), String::from("carol"))
        .unwrap();
    assert_eq!(renamed.username, String::from("carol"));
    let re_mailed = change_email(&authenticated(5, true), Some(renamed), String::from("c@e"))
        .unwrap();
    assert_eq!(re_mailed.email, String::from("c@e"));
    let re_phoned =
        change_contact_number(&authenticated(5, true), Some(re_mailed), String::from("555"))
            .unwrap();
    assert_eq!(re_phoned.contact_number, Some(String::from("555")));
    let echoed = auth_response(re_phoned);
    assert_eq!(echoed.username, String::from("carol"));
    assert_eq!(echoed.email, String::from("c@e"));
    assert_eq!(echoed.contact_number, Some(String::from("555")));

    match delete_user(&authenticated(5, false)) {
        Err(e) => assert_eq!(e, ApiError::Unauthenticated),
        Ok(_) => panic!("deletion needs a one-time token"),
    }
    assert_eq!(delete_user(&authenticated(5, true)), Ok((5, 5)));
}

#[test]
fn ratings_project_with_rendered_counters() {
    let rating = fresh_rating(21);
    let details = ratings_details(&rating, 9000);
    assert_eq!(details.id, 21);
    assert_eq!(details.upvotes, String::from("0"));
    assert_eq!(details.views, String::from("9000"));
}

#[test]
fn only_a_fresh_verdict_authenticates() {
    let verdict = Verdict {
        user_id: 1,
        auth_id: 2,
        username: String::from("alice"),
        is_authenticated: true,
        is_one_time_jwt: false,
    };
    match status_of(Some(verdict)) {
        AuthenticationStatus::Authenticated(a) => {
            assert_eq!(a.user_id, 1);
            assert_eq!(a.auth_id, 2);
            assert!(!a.is_one_time_jwt);
        }
        AuthenticationStatus::Unauthenticated => panic!("a fresh verdict authenticates"),
    }
    let stale = Verdict {
        user_id: 1,
        auth_id: 2,
        username: String::from("alice"),
        is_authenticated: false,
        is_one_time_jwt: false,
    };
    assert!(matches!(
        status_of(Some(stale)),
        AuthenticationStatus::Unauthenticated
    ));
    assert!(matches!(status_of(None), AuthenticationStatus::Unauthenticated));
}
