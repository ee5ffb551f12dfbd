//! Signed token encoding and decoding.
//!
//! A token is its claim payload, a dot, and the HS512 tag of the payload
//! under the shared signing key.  The tag is base64url text and so never
//! contains a dot, which makes the split at the last dot unambiguous even
//! though the payload's username tail may contain dots.  Signing and
//! verifying are the only trusted steps; the framing and the payload codec
//! are verified.

use crate::claims::{claim_payload_string, parse_claim, parse_payload, Claim, Token};
use crate::numstr::to_char_vec;
use vstd::prelude::*;
use vstd::string::*;

verus! {

/// The HS512 tag, as base64url text, that signing `message` with `key`
/// produces.
pub uninterp spec fn sig_of(message: Seq<char>, key: Seq<char>) -> Seq<char>;

/// The verifier's verdict on `signature` for `message` under `key`.
pub uninterp spec fn sig_valid(signature: Seq<char>, message: Seq<char>, key: Seq<char>) -> bool;

/// Relies on `jsonwebtoken::crypto::sign` with `Algorithm::HS512` and a
/// secret key: HMAC signing of a secret key never fails, its tag is a
/// function of message and key alone, and the returned base64url text never
/// contains a dot.
#[verifier::external_body]
pub(crate) fn hs512_sign(message: &str, key: &str) -> (r: String)
    ensures
        r@ == sig_of(message@, key@),
        !r@.contains('.'),
{
    jsonwebtoken::crypto::sign(
        message.as_bytes(),
        &jsonwebtoken::EncodingKey::from_secret(key.as_bytes()),
        jsonwebtoken::Algorithm::HS512,
    ).unwrap()
}

/// Relies on `jsonwebtoken::crypto::verify` with `Algorithm::HS512`: the
/// verdict is a function of signature, message, and key alone (an undecodable
/// signature counts as invalid), and the tag `crypto::sign` produces for the
/// same message and key always verifies.
#[verifier::external_body]
pub(crate) fn hs512_verify(signature: &str, message: &str, key: &str) -> (r: bool)
    ensures
        r == sig_valid(signature@, message@, key@),
        signature@ == sig_of(message@, key@) ==> r,
{
    jsonwebtoken::crypto::verify(
        signature,
        message.as_bytes(),
        &jsonwebtoken::DecodingKey::from_secret(key.as_bytes()),
        jsonwebtoken::Algorithm::HS512,
    ).unwrap_or(false)
}

/// The full token text for a payload under a key.
pub open spec fn token_chars(payload: Seq<char>, key: Seq<char>) -> Seq<char> {
    payload + seq!['.'] + sig_of(payload, key)
}

/// The index of the last dot of `s`, or `-1` if it has none.
pub open spec fn last_dot(s: Seq<char>) -> int
    decreases s.len(),
{
    if s.len() == 0 {
        -1
    } else if s.last() == '.' {
        s.len() - 1
    } else {
        last_dot(s.drop_last())
    }
}

/// `last_dot` finds exactly the rightmost dot.
pub proof fn lemma_last_dot_is(s: Seq<char>, d: int)
    requires
        0 <= d < s.len(),
        s[d] == '.',
        forall|k: int| d < k < s.len() ==> #[trigger] s[k] != '.',
    ensures
        last_dot(s) == d,
    decreases s.len(),
{
    if d == s.len() - 1 {
    } else {
        assert(s.last() != '.');
        assert(s.drop_last()[d] == '.');
        lemma_last_dot_is(s.drop_last(), d);
    }
}

/// A string without dots has no last dot.
pub proof fn lemma_no_dot(s: Seq<char>)
    requires
        forall|k: int| 0 <= k < s.len() ==> #[trigger] s[k] != '.',
    ensures
        last_dot(s) == -1,
    decreases s.len(),
{
    if s.len() > 0 {
        lemma_no_dot(s.drop_last());
    }
}

/// Splitting `payload + "." + sig` at its last dot recovers the parts when
/// the signature holds no dot.
pub proof fn lemma_token_split(payload: Seq<char>, sig: Seq<char>)
    requires
        !sig.contains('.'),
    ensures
        ({
            let t = payload + seq!['.'] + sig;
            &&& last_dot(t) == payload.len()
            &&& t.subrange(0, payload.len() as int) == payload
            &&& t.skip(payload.len() as int + 1) == sig
        }),
{
    let t = payload + seq!['.'] + sig;
    assert(t[payload.len() as int] == '.');
    assert forall|k: int| payload.len() < k < t.len() implies #[trigger] t[k] != '.' by {
        assert(t[k] == sig[k - payload.len() - 1]);
        if t[k] == '.' {
            assert(sig.contains('.'));
        }
    }
    lemma_last_dot_is(t, payload.len() as int);
    assert(t.subrange(0, payload.len() as int) =~= payload);
    assert(t.skip(payload.len() as int + 1) =~= sig);
}

/// Signs the claim and frames the token.
pub fn encode_token(c: &Claim, key: &str) -> (t: Token)
    requires
        c.wf(),
    ensures
        t.jwt@ == token_chars(c.payload(), key@),
        last_dot(t.jwt@) == c.payload().len(),
{
    let mut jwt = claim_payload_string(c);
    let sig = hs512_sign(jwt.as_str(), key);
    let dot = ".";
    proof {
        reveal_strlit(".");
        assert(dot@ =~= seq!['.']);
    }
    jwt.append(dot);
    jwt.append(sig.as_str());
    proof {
        assert(jwt@ =~= token_chars(c.payload(), key@));
        lemma_token_split(c.payload(), sig@);
    }
    Token { jwt }
}

/// Splits, signature-checks, and parses a token.
///
/// Returns the claim exactly when the text left of the last dot is a
/// canonical claim payload and the text right of it is a signature that
/// verifies for that payload under `key`; any malformed or forged token
/// yields `None`.
pub fn decode_token(token: &str, key: &str) -> (r: Option<Claim>)
    ensures
        ({
            let d = last_dot(token@);
            let payload = token@.subrange(0, d);
            let sig = token@.skip(d + 1);
            &&& d < 0 ==> r is None
            &&& d >= 0 && !sig_valid(sig, payload, key@) ==> r is None
            &&& d >= 0 && sig == sig_of(payload, key@) ==> sig_valid(sig, payload, key@)
            &&& d >= 0 && sig_valid(sig, payload, key@) ==> match parse_payload(payload) {
                Some(f) => r matches Some(c) && c.wf() && c.auth_id == f.0 && c.user_id == f.1
                    && c.password_version == f.2 && c.exp == f.3 && c.username@ == f.4,
                None => r is None,
            }
        }),
        r matches Some(c) ==> c.wf() && (exists|sig: Seq<char>|
            token@ == c.payload() + seq!['.'] + sig && sig_valid(sig, c.payload(), key@)),
{
    let v = to_char_vec(token);
    let n = v.len();
    let mut i: usize = n;
    while i > 0 && v[i - 1] != '.'
        invariant
            i <= n,
            n == v@.len(),
            v@ == token@,
            forall|k: int| i <= k < n ==> #[trigger] v@[k] != '.',
        decreases i,
    {
        i = i - 1;
    }
    if i == 0 {
        proof {
            lemma_no_dot(token@);
        }
        return None;
    }
    let d = i - 1;
    proof {
        lemma_last_dot_is(token@, d as int);
    }
    let payload = token.substring_char(0, d);
    let sig = token.substring_char(d + 1, n);
    proof {
        assert(payload@ == token@.subrange(0, last_dot(token@)));
        assert(sig@ =~= token@.skip(last_dot(token@) + 1));
    }
    if !hs512_verify(sig, payload, key) {
        return None;
    }
    let r = parse_claim(payload);
    proof {
        if r is Some {
            let c = r->Some_0;
            assert(token@ =~= c.payload() + seq!['.'] + sig@);
        }
    }
    r
}

} // verus!
