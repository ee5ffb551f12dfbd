//! The credential authority: verifying secrets, issuing tokens, validating
//! claims, and the credential mutations it gates.
//!
//! The stored password hash is the HS512 tag of the submitted secret under a
//! separate password secret key — a keyed hashing scheme, sharing the one
//! trusted signing primitive of the token codec.  A token is valid only
//! while its signature verifies, its expiry lies ahead, and its username and
//! password-version snapshot still match the live credential; bumping the
//! version therefore invalidates every outstanding token at once.

use crate::claims::{Claim, LoginData, RequestType, Token};
use crate::tokens::{encode_token, hs512_sign, sig_of, token_chars};
use crate::ApiError;
use crate::server_auth::AuthenticationStatus;
use vstd::prelude::*;
use vstd::string::*;

verus! {

/// Seconds a session token lives: sixty days.
pub const SESSION_LIFETIME_SECS: u64 = 5184000;

/// Seconds a one-time token lives: one minute.
pub const ONE_TIME_LIFETIME_SECS: u64 = 60;

/// A token whose remaining life is below this window counts as one-time.
pub const ONE_TIME_WINDOW_SECS: u64 = 120;

/// A stored credential: the identity anchor of a principal.
#[derive(Clone)]
pub struct Credential {
    pub id: i64,
    pub username: String,
    pub email: String,
    pub contact_number: Option<String>,
    pub password_hash: String,
    pub password_version: u64,
}

impl Credential {
    /// Ids are store-assigned and therefore non-negative.
    pub open spec fn wf(&self) -> bool {
        self.id >= 0
    }
}

/// The row inserted when a credential is registered; the store assigns the
/// id.
pub struct NewCredential {
    pub username: String,
    pub email: String,
    pub contact_number: Option<String>,
    pub password_hash: String,
    pub password_version: u64,
}

/// Registration input: the identity fields and the chosen secret.
pub struct AuthModify {
    pub username: String,
    pub email: String,
    pub contact_number: Option<String>,
    pub password: String,
}

/// The identity fields echoed back after a credential mutation.
pub struct AuthResponse {
    pub username: String,
    pub email: String,
    pub contact_number: Option<String>,
}

/// The validator's verdict on a decoded claim.
pub struct Verdict {
    pub user_id: i64,
    pub auth_id: i64,
    pub username: String,
    pub is_authenticated: bool,
    pub is_one_time_jwt: bool,
}

/// Whether `hash` is the stored form of `password` under the password secret
/// `key`.
pub open spec fn hash_matches(hash: Seq<char>, password: Seq<char>, key: Seq<char>) -> bool {
    hash == sig_of(password, key)
}

/// Hashes a secret for storage with the keyed hashing scheme.
pub fn hash_password(password: &str, key: &str) -> (r: String)
    ensures
        hash_matches(r@, password@, key@),
{
    hs512_sign(password, key)
}

/// Checks a submitted secret against a stored hash.
pub fn verify_password(hash: &String, password: &str, key: &str) -> (r: bool)
    ensures
        r == hash_matches(hash@, password@, key@),
{
    let tag = hs512_sign(password, key);
    *hash == tag
}

/// The lifetime granted to a token of the requested class.
pub open spec fn lifetime_secs(requested: RequestType) -> int {
    match requested {
        RequestType::Login => SESSION_LIFETIME_SECS as int,
        RequestType::OneTimeJwt => ONE_TIME_LIFETIME_SECS as int,
    }
}

/// The payload of the token that `issue` mints at `now` for this credential
/// and principal.
pub open spec fn issued_payload(
    cred: Credential,
    user_id: int,
    requested: RequestType,
    now: int,
) -> Seq<char> {
    crate::claims::payload_of(
        cred.id as int,
        user_id,
        cred.password_version as int,
        now + lifetime_secs(requested),
        cred.username@,
    )
}

/// Issues a token of the requested class.
///
/// An absent credential fails with `NotFound`; a secret that does not match
/// the stored hash fails with `Forbidden`.  On success the token carries the
/// credential's identity and version snapshot and expires one lifetime from
/// `now`, and the resolved principal id is returned beside it.  Issuance has
/// no side effect.
pub fn issue(
    cred: Option<&Credential>,
    user_id: i64,
    login: &LoginData,
    requested: RequestType,
    now: u64,
    password_key: &str,
    signing_key: &str,
) -> (r: Result<(Token, i64), ApiError>)
    requires
        cred matches Some(c) ==> c.wf(),
        user_id >= 0,
        now + SESSION_LIFETIME_SECS <= u64::MAX,
    ensures
        cred is None ==> (r matches Err(e) && e == ApiError::NotFound),
        (cred matches Some(c) && !hash_matches(c.password_hash@, login.password@, password_key@))
            ==> (r matches Err(e) && e == ApiError::Forbidden),
        cred matches Some(c) ==> hash_matches(c.password_hash@, login.password@, password_key@)
            ==> (r matches Ok(t) && t.1 == user_id && t.0.jwt@ == token_chars(
            issued_payload(*c, user_id as int, requested, now as int),
            signing_key@,
        )),
{
    let c = match cred {
        Some(c) => c,
        None => {
            return Err(ApiError::NotFound);
        },
    };
    if !verify_password(&c.password_hash, login.password.as_str(), password_key) {
        return Err(ApiError::Forbidden);
    }
    let lifetime: u64 = match requested {
        RequestType::Login => SESSION_LIFETIME_SECS,
        RequestType::OneTimeJwt => ONE_TIME_LIFETIME_SECS,
    };
    let claim = Claim {
        auth_id: c.id,
        user_id,
        username: c.username.clone(),
        password_version: c.password_version,
        exp: now + lifetime,
    };
    let token = encode_token(&claim, signing_key);
    Ok((token, user_id))
}

/// Whether the claim's identity snapshot still matches the live credential.
pub open spec fn spec_is_authenticated(claim: Claim, cred: Credential) -> bool {
    claim.username@ == cred.username@ && claim.password_version == cred.password_version
}

/// Whether the claim's remaining life marks it as a one-time token.
pub open spec fn spec_is_one_time(claim: Claim, now: int) -> bool {
    claim.exp - now < ONE_TIME_WINDOW_SECS
}

/// Certifies a decoded claim against the live credential.
///
/// Yields no verdict — the caller answers `Unauthenticated` — when the
/// referenced credential is gone or the claim has expired; otherwise the
/// verdict reports whether the identity snapshot is still fresh, and whether
/// the token is within the one-time window.
pub fn check_claim(claim: &Claim, cred: Option<&Credential>, now: u64) -> (r: Option<Verdict>)
    ensures
        cred is None ==> r is None,
        cred is Some && now >= claim.exp ==> r is None,
        cred matches Some(c) ==> now < claim.exp ==> (r matches Some(v) && v.user_id
            == claim.user_id && v.auth_id == claim.auth_id && v.username@ == c.username@
            && v.is_authenticated == spec_is_authenticated(*claim, *c) && v.is_one_time_jwt
            == spec_is_one_time(*claim, now as int)),
{
    let c = match cred {
        Some(c) => c,
        None => {
            return None;
        },
    };
    if now >= claim.exp {
        return None;
    }
    let fresh = claim.username == c.username && claim.password_version == c.password_version;
    let one_time = claim.exp - now < ONE_TIME_WINDOW_SECS;
    Some(
        Verdict {
            user_id: claim.user_id,
            auth_id: claim.auth_id,
            username: c.username.clone(),
            is_authenticated: fresh,
            is_one_time_jwt: one_time,
        },
    )
}

/// A session token validated before its expiry against the unchanged
/// credential is authenticated, and outside the final window of its
/// sixty-day life it is not flagged one-time.  (In the last two minutes
/// before expiry the window heuristic does flag it: `t == exp - 60` is such
/// an input, which the second bound excludes.)
pub proof fn lemma_session_token_fresh(claim: Claim, cred: Credential, t0: int, t: int)
    requires
        claim.username@ == cred.username@,
        claim.password_version == cred.password_version,
        claim.exp == t0 + SESSION_LIFETIME_SECS,
        t0 <= t,
        t + ONE_TIME_WINDOW_SECS <= claim.exp,
    ensures
        t < claim.exp,
        spec_is_authenticated(claim, cred),
        !spec_is_one_time(claim, t),
{
}

/// A one-time token validated within its one-minute life is authenticated
/// and flagged one-time; from its expiry on — so in particular two minutes
/// after issue — validation yields no verdict at all.  (The window flag is
/// meaningful only before expiry: at `t == t0 + 90` the token is simply
/// expired.)
pub proof fn lemma_one_time_token_window(claim: Claim, cred: Credential, t0: int, t: int)
    requires
        claim.username@ == cred.username@,
        claim.password_version == cred.password_version,
        claim.exp == t0 + ONE_TIME_LIFETIME_SECS,
        t0 <= t,
    ensures
        t < claim.exp ==> spec_is_authenticated(claim, cred) && spec_is_one_time(claim, t),
        t >= t0 + ONE_TIME_LIFETIME_SECS ==> t >= claim.exp,
{
}

/// Bumping the password version invalidates an outstanding token: the
/// claim's snapshot no longer matches, so validation reports it
/// unauthenticated even while its signature and expiry still hold.
pub proof fn lemma_version_bump_invalidates(claim: Claim, cred: Credential, bumped: Credential)
    requires
        spec_is_authenticated(claim, cred),
        bumped.password_version > cred.password_version,
    ensures
        !spec_is_authenticated(claim, bumped),
{
}

/// Whether the status authorizes a sensitive, one-shot credential mutation:
/// it must be authenticated and within the one-time window.
pub open spec fn one_time_authorized(status: AuthenticationStatus) -> bool {
    match status {
        AuthenticationStatus::Authenticated(a) => a.is_one_time_jwt,
        AuthenticationStatus::Unauthenticated => false,
    }
}

/// Registers a credential: hashes the chosen secret and lays out the row to
/// insert, at the initial password version.
pub fn build_credential(auth: &AuthModify, password_key: &str) -> (r: NewCredential)
    ensures
        hash_matches(r.password_hash@, auth.password@, password_key@),
        r.username == auth.username,
        r.email == auth.email,
        r.contact_number == auth.contact_number,
        r.password_version == 0,
{
    let password_hash = hash_password(auth.password.as_str(), password_key);
    NewCredential {
        username: auth.username.clone(),
        email: auth.email.clone(),
        contact_number: auth.contact_number.clone(),
        password_hash,
        password_version: 0,
    }
}

/// Replaces the username of the acting principal's credential.  Requires a
/// one-time token; an absent credential fails with `NotFound`.
pub fn change_username(
    status: &AuthenticationStatus,
    cred: Option<Credential>,
    username: String,
) -> (r: Result<Credential, ApiError>)
    ensures
        !one_time_authorized(*status) ==> (r matches Err(e) && e == ApiError::Unauthenticated),
        one_time_authorized(*status) && cred is None ==> (r matches Err(e) && e
            == ApiError::NotFound),
        cred matches Some(c) ==> one_time_authorized(*status) ==> (r matches Ok(c2) && c2.username
            == username && c2.id == c.id && c2.email == c.email && c2.contact_number
            == c.contact_number && c2.password_hash == c.password_hash && c2.password_version
            == c.password_version),
{
    if !is_one_time(status) {
        return Err(ApiError::Unauthenticated);
    }
    match cred {
        None => Err(ApiError::NotFound),
        Some(c) => Ok(Credential { username, ..c }),
    }
}

/// Replaces the email of the acting principal's credential, under the same
/// gate as every other sensitive credential mutation.
pub fn change_email(status: &AuthenticationStatus, cred: Option<Credential>, email: String) -> (r:
    Result<Credential, ApiError>)
    ensures
        !one_time_authorized(*status) ==> (r matches Err(e) && e == ApiError::Unauthenticated),
        one_time_authorized(*status) && cred is None ==> (r matches Err(e) && e
            == ApiError::NotFound),
        cred matches Some(c) ==> one_time_authorized(*status) ==> (r matches Ok(c2) && c2.email
            == email && c2.id == c.id && c2.username == c.username && c2.contact_number
            == c.contact_number && c2.password_hash == c.password_hash && c2.password_version
            == c.password_version),
{
    if !is_one_time(status) {
        return Err(ApiError::Unauthenticated);
    }
    match cred {
        None => Err(ApiError::NotFound),
        Some(c) => Ok(Credential { email, ..c }),
    }
}

/// Replaces the contact number of the acting principal's credential.
pub fn change_contact_number(
    status: &AuthenticationStatus,
    cred: Option<Credential>,
    contact_number: String,
) -> (r: Result<Credential, ApiError>)
    ensures
        !one_time_authorized(*status) ==> (r matches Err(e) && e == ApiError::Unauthenticated),
        one_time_authorized(*status) && cred is None ==> (r matches Err(e) && e
            == ApiError::NotFound),
        cred matches Some(c) ==> one_time_authorized(*status) ==> (r matches Ok(c2)
            && c2.contact_number matches Some(n) && n == contact_number && c2.id == c.id
            && c2.username == c.username && c2.email == c.email && c2.password_hash
            == c.password_hash && c2.password_version == c.password_version),
{
    if !is_one_time(status) {
        return Err(ApiError::Unauthenticated);
    }
    match cred {
        None => Err(ApiError::NotFound),
        Some(c) => Ok(Credential { contact_number: Some(contact_number), ..c }),
    }
}

/// Replaces the secret of the acting principal's credential with the hash of
/// the new one, and bumps the password version: a claim carries the version
/// it was issued under, so every token minted before the change fails the
/// freshness check from this moment on.
pub fn change_password(
    status: &AuthenticationStatus,
    cred: Option<Credential>,
    password: &str,
    password_key: &str,
) -> (r: Result<Credential, ApiError>)
    requires
        cred matches Some(c) ==> c.password_version < u64::MAX,
    ensures
        !one_time_authorized(*status) ==> (r matches Err(e) && e == ApiError::Unauthenticated),
        one_time_authorized(*status) && cred is None ==> (r matches Err(e) && e
            == ApiError::NotFound),
        cred matches Some(c) ==> one_time_authorized(*status) ==> (r matches Ok(c2)
            && hash_matches(c2.password_hash@, password@, password_key@) && c2.id == c.id
            && c2.username == c.username && c2.email == c.email && c2.contact_number
            == c.contact_number && c2.password_version == c.password_version + 1),
{
    if !is_one_time(status) {
        return Err(ApiError::Unauthenticated);
    }
    match cred {
        None => Err(ApiError::NotFound),
        Some(c) => {
            let password_hash = hash_password(password, password_key);
            let bumped = c.password_version + 1;
            Ok(Credential { password_hash, password_version: bumped, ..c })
        },
    }
}

/// Forces every outstanding token of this credential out: bumps the
/// password version by one, so no claim carrying the old snapshot can
/// authenticate again.
pub fn logout_from_all_devices(status: &AuthenticationStatus, cred: Option<Credential>) -> (r:
    Result<Credential, ApiError>)
    requires
        cred matches Some(c) ==> c.password_version < u64::MAX,
    ensures
        !one_time_authorized(*status) ==> (r matches Err(e) && e == ApiError::Unauthenticated),
        one_time_authorized(*status) && cred is None ==> (r matches Err(e) && e
            == ApiError::NotFound),
        cred matches Some(c) ==> one_time_authorized(*status) ==> (r matches Ok(c2)
            && c2.password_version == c.password_version + 1 && c2.id == c.id && c2.username
            == c.username && c2.email == c.email && c2.contact_number == c.contact_number
            && c2.password_hash == c.password_hash),
{
    if !is_one_time(status) {
        return Err(ApiError::Unauthenticated);
    }
    match cred {
        None => Err(ApiError::NotFound),
        Some(c) => {
            let bumped = c.password_version + 1;
            Ok(Credential { password_version: bumped, ..c })
        },
    }
}

/// Decides an account deletion: only a one-time token authorizes it, and it
/// names the principal row and credential row to delete.
pub fn delete_user(status: &AuthenticationStatus) -> (r: Result<(i64, i64), ApiError>)
    ensures
        !one_time_authorized(*status) ==> (r matches Err(e) && e == ApiError::Unauthenticated),
        one_time_authorized(*status) ==> (match *status {
            AuthenticationStatus::Authenticated(a) => r matches Ok(ids) && ids.0 == a.user_id
                && ids.1 == a.auth_id,
            AuthenticationStatus::Unauthenticated => false,
        }),
{
    match status {
        AuthenticationStatus::Authenticated(a) => {
            if a.is_one_time_jwt {
                Ok((a.user_id, a.auth_id))
            } else {
                Err(ApiError::Unauthenticated)
            }
        },
        AuthenticationStatus::Unauthenticated => Err(ApiError::Unauthenticated),
    }
}

/// Projects a credential into the identity fields echoed back to callers.
pub fn auth_response(c: Credential) -> (r: AuthResponse)
    ensures
        r.username == c.username,
        r.email == c.email,
        r.contact_number == c.contact_number,
{
    AuthResponse { username: c.username, email: c.email, contact_number: c.contact_number }
}

/// The one-time gate every sensitive credential mutation shares.
fn is_one_time(status: &AuthenticationStatus) -> (r: bool)
    ensures
        r == one_time_authorized(*status),
{
    match status {
        AuthenticationStatus::Authenticated(a) => a.is_one_time_jwt,
        AuthenticationStatus::Unauthenticated => false,
    }
}

} // verus!
