use trending::auth::{
    build_credential, change_password, check_claim, hash_password, issue, logout_from_all_devices,
    verify_password, AuthModify, Credential, ONE_TIME_LIFETIME_SECS, SESSION_LIFETIME_SECS,
};
use trending::claims::{LoginData, RequestType};
use trending::server_auth::{status_of, Authenticated, AuthenticationStatus};
use trending::tokens::{decode_token, encode_token};
use trending::claims::Claim;
use trending::ApiError;

const NOW: u64 = 1_700_000_000;
const SIGN_KEY: &str = "test-signing-key";
const PW_KEY: &str = "test-password-key";

fn alice_credential() -> Credential {
    let auth = AuthModify {
        username: String::from("alice"),
        email: String::from("alice@example.com"),
        contact_number: None,
        password: String::from("correctpw"),
    };
    let row = build_credential(&auth, PW_KEY);
    Credential {
        id: 1,
        username: row.username,
        email: row.email,
        contact_number: row.contact_number,
        password_hash: row.password_hash,
        password_version: row.password_version,
    }
}

fn login(username: &str, password: &str) -> LoginData {
    LoginData {
        username: String::from(username),
        password: String::from(password),
    }
}

fn one_time_status(user_id: i64, auth_id: i64) -> AuthenticationStatus {
    AuthenticationStatus::Authenticated(Authenticated {
        auth_id,
        user_id,
        username: String::from("alice"),
        is_one_time_jwt: true,
    })
}

#[test]
fn password_hash_verifies_and_rejects() {
    let hash = hash_password("correctpw", PW_KEY);
    assert!(verify_password(&hash, "correctpw", PW_KEY));
    assert!(!verify_password(&hash, "wrongpw", PW_KEY));
    assert!(!verify_password(&hash, "correctpw", "other-key"));
    assert_ne!(hash, String::from("correctpw"));
}

#[test]
fn login_with_correct_password_issues_token() {
    let cred = alice_credential();
    let r = issue(
        Some(&cred),
        10,
        &login("alice", "correctpw"),
        RequestType::Login,
        NOW,
        PW_KEY,
        SIGN_KEY,
    );
    match r {
        Ok((token, user_id)) => {
            assert_eq!(user_id, 10);
            assert!(token.jwt.contains('.'));
        }
        Err(_) => panic!("valid credentials must issue a token"),
    }
}

#[test]
fn login_with_wrong_password_is_forbidden() {
    let cred = alice_credential();
    let r = issue(
        Some(&cred),
        10,
        &login("alice", "wrongpw"),
        RequestType::Login,
        NOW,
        PW_KEY,
        SIGN_KEY,
    );
    match r {
        Err(e) => assert_eq!(e, ApiError::Forbidden),
        Ok(_) => panic!("a wrong password must not issue a token"),
    }
}

#[test]
fn login_with_unknown_user_is_not_found() {
    let r = issue(
        None,
        10,
        &login("nobody", "pw"),
        RequestType::Login,
        NOW,
        PW_KEY,
        SIGN_KEY,
    );
    match r {
        Err(e) => assert_eq!(e, ApiError::NotFound),
        Ok(_) => panic!("an unknown user must not issue a token"),
    }
}

#[test]
fn session_token_validates_fresh_and_not_one_time() {
    let cred = alice_credential();
    let (token, _) = issue(
        Some(&cred),
        10,
        &login("alice", "correctpw"),
        RequestType::Login,
        NOW,
        PW_KEY,
        SIGN_KEY,
    )
    .unwrap();
    let claim = decode_token(token.jwt.as_str(), SIGN_KEY).expect("own token must decode");
    assert_eq!(claim.auth_id, 1);
    assert_eq!(claim.user_id, 10);
    assert_eq!(claim.username, String::from("alice"));
    assert_eq!(claim.password_version, 0);
    assert_eq!(claim.exp, NOW + SESSION_LIFETIME_SECS);
    let verdict = check_claim(&claim, Some(&cred), NOW + 5).expect("token is not expired");
    assert!(verdict.is_authenticated);
    assert!(!verdict.is_one_time_jwt);
    assert_eq!(verdict.user_id, 10);
    assert_eq!(verdict.auth_id, 1);
    assert_eq!(verdict.username, String::from("alice"));
}

#[test]
fn one_time_token_flags_window_and_expires() {
    let cred = alice_credential();
    let (token, _) = issue(
        Some(&cred),
        10,
        &login("alice", "correctpw"),
        RequestType::OneTimeJwt,
        NOW,
        PW_KEY,
        SIGN_KEY,
    )
    .unwrap();
    let claim = decode_token(token.jwt.as_str(), SIGN_KEY).expect("own token must decode");
    assert_eq!(claim.exp, NOW + ONE_TIME_LIFETIME_SECS);
    // Within its one-minute life: authenticated and flagged one-time.
    let verdict = check_claim(&claim, Some(&cred), NOW + 30).expect("still alive");
    assert!(verdict.is_authenticated);
    assert!(verdict.is_one_time_jwt);
    // After expiry, and so also two minutes after issuance, there is no
    // verdict at all; callers then report the token as unauthenticated.
    assert!(check_claim(&claim, Some(&cred), NOW + 60).is_none());
    assert!(check_claim(&claim, Some(&cred), NOW + 120).is_none());
}

#[test]
fn version_bump_invalidates_outstanding_session_token() {
    let cred = alice_credential();
    let (token, _) = issue(
        Some(&cred),
        10,
        &login("alice", "correctpw"),
        RequestType::Login,
        NOW,
        PW_KEY,
        SIGN_KEY,
    )
    .unwrap();
    let claim = decode_token(token.jwt.as_str(), SIGN_KEY).unwrap();
    let bumped = logout_from_all_devices(&one_time_status(10, 1), Some(cred)).unwrap();
    assert_eq!(bumped.password_version, 1);
    let verdict = check_claim(&claim, Some(&bumped), NOW + 5).expect("not expired");
    assert!(!verdict.is_authenticated);
    assert!(matches!(
        status_of(Some(verdict)),
        AuthenticationStatus::Unauthenticated
    ));
}

#[test]
fn deleted_credential_yields_no_verdict() {
    let cred = alice_credential();
    let (token, _) = issue(
        Some(&cred),
        10,
        &login("alice", "correctpw"),
        RequestType::Login,
        NOW,
        PW_KEY,
        SIGN_KEY,
    )
    .unwrap();
    let claim = decode_token(token.jwt.as_str(), SIGN_KEY).unwrap();
    assert!(check_claim(&claim, None, NOW + 5).is_none());
}

#[test]
fn tampered_or_foreign_tokens_do_not_decode() {
    let cred = alice_credential();
    let (token, _) = issue(
        Some(&cred),
        10,
        &login("alice", "correctpw"),
        RequestType::Login,
        NOW,
        PW_KEY,
        SIGN_KEY,
    )
    .unwrap();
    // Flip the last signature character.
    let mut tampered: String = token.jwt.clone();
    let last = tampered.pop().unwrap();
    tampered.push(if last == 'A' { 'B' } else { 'A' });
    assert!(decode_token(tampered.as_str(), SIGN_KEY).is_none());
    // A token signed under another key never validates here.
    assert!(decode_token(token.jwt.as_str(), "another-key").is_none());
    // Malformed tokens are refused outright.
    assert!(decode_token("", SIGN_KEY).is_none());
    assert!(decode_token("no-dot-here", SIGN_KEY).is_none());
    assert!(decode_token("a.b.c", SIGN_KEY).is_none());
}

#[test]
fn payload_tampering_is_caught_by_the_signature() {
    let claim = Claim {
        auth_id: 1,
        user_id: 10,
        username: String::from("alice"),
        password_version: 0,
        exp: NOW + SESSION_LIFETIME_SECS,
    };
    let token = encode_token(&claim, SIGN_KEY);
    // Raise the embedded principal id: the signature no longer matches.
    let forged = token.jwt.replacen("1,10,", "1,11,", 1);
    assert_ne!(forged, token.jwt);
    assert!(decode_token(forged.as_str(), SIGN_KEY).is_none());
    // The untouched token still decodes to the same claim.
    let back = decode_token(token.jwt.as_str(), SIGN_KEY).unwrap();
    assert_eq!(back.auth_id, 1);
    assert_eq!(back.user_id, 10);
    assert_eq!(back.username, String::from("alice"));
}

#[test]
fn username_with_dots_and_commas_round_trips() {
    let claim = Claim {
        auth_id: 3,
        user_id: 4,
        username: String::from("a.b,c.d, e"),
        password_version: 7,
        exp: NOW + 100,
    };
    let token = encode_token(&claim, SIGN_KEY);
    let back = decode_token(token.jwt.as_str(), SIGN_KEY).unwrap();
    assert_eq!(back.auth_id, 3);
    assert_eq!(back.user_id, 4);
    assert_eq!(back.username, String::from("a.b,c.d, e"));
    assert_eq!(back.password_version, 7);
    assert_eq!(back.exp, NOW + 100);
}

#[test]
fn change_password_requires_one_time_token_and_rehashes() {
    let cred = alice_credential();
    let session_status = AuthenticationStatus::Authenticated(Authenticated {
        auth_id: 1,
        user_id: 10,
        username: String::from("alice"),
        is_one_time_jwt: false,
    });
    match change_password(&session_status, None, "newpw", PW_KEY) {
        Err(e) => assert_eq!(e, ApiError::Unauthenticated),
        Ok(_) => panic!("a session token must not change the password"),
    }
    let updated = change_password(&one_time_status(10, 1), Some(cred), "newpw", PW_KEY).unwrap();
    assert!(verify_password(&updated.password_hash, "newpw", PW_KEY));
    assert!(!verify_password(&updated.password_hash, "correctpw", PW_KEY));
    assert_eq!(updated.password_version, 1);
}

#[test]
fn password_change_invalidates_outstanding_tokens() {
    let cred = alice_credential();
    let (token, _) = issue(
        Some(&cred),
        10,
        &login("alice", "correctpw"),
        RequestType::Login,
        NOW,
        PW_KEY,
        SIGN_KEY,
    )
    .unwrap();
    let claim = decode_token(token.jwt.as_str(), SIGN_KEY).unwrap();
    // Changing the password bumps the version, so the old token's snapshot
    // goes stale at once even though its signature and expiry still hold.
    let changed = change_password(&one_time_status(10, 1), Some(cred), "newpw", PW_KEY).unwrap();
    let verdict = check_claim(&claim, Some(&changed), NOW + 5).expect("not expired");
    assert!(!verdict.is_authenticated);
    assert!(matches!(
        status_of(Some(verdict)),
        AuthenticationStatus::Unauthenticated
    ));
}
