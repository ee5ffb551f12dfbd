//! Token claims and their payload codec.
//!
//! A claim binds a credential id, a principal id, the username, the
//! credential's password version, and an expiry timestamp.  It travels inside
//! a signed token as a plain text payload: the four numbers in canonical
//! decimal form, each followed by a comma, then the username as the tail
//! (the tail may contain any character, commas included, since the field
//! count is fixed).  The renderer and parser here invert each other exactly.

use crate::numstr::{
    digit_run_end, is_digit, lemma_canonical_run, lemma_digit_run_end_is,
    lemma_digit_run_end_props, lemma_u64_dec_props, num_val, parse_u64, to_char_vec, u64_dec,
    u64_to_string,
};
use vstd::prelude::*;
use vstd::string::*;

verus! {

/// A login request: the submitted username and secret.
pub struct LoginData {
    pub username: String,
    pub password: String,
}

/// The class of token a login asks for: a long-lived session token, or a
/// short-lived one-time token that gates sensitive operations.
#[derive(Clone, Copy, Debug, PartialEq, Eq, Structural)]
pub enum RequestType {
    Login,
    OneTimeJwt,
}

/// The signed, encoded token as it travels over the wire.
pub struct Token {
    pub jwt: String,
}

/// Resolves the token class a request's path segment asks for; any other
/// segment is an unknown request shape.
pub fn request_type_of(path: &str) -> (r: Option<RequestType>)
    ensures
        (r == Some(RequestType::Login)) == (path@ == "login"@),
        (r == Some(RequestType::OneTimeJwt)) == (path@ == "one-time-jwt"@),
        (r is None) == (path@ != "login"@ && path@ != "one-time-jwt"@),
{
    proof {
        reveal_strlit("login");
        reveal_strlit("one-time-jwt");
        assert("login"@.len() == 5);
        assert("one-time-jwt"@.len() == 12);
        assert("login"@ != "one-time-jwt"@);
    }
    let given = String::from_str(path);
    let login = String::from_str("login");
    let one_time = String::from_str("one-time-jwt");
    if given == login {
        Some(RequestType::Login)
    } else if given == one_time {
        Some(RequestType::OneTimeJwt)
    } else {
        None
    }
}

/// The claim set carried inside a signed token.
pub struct Claim {
    pub auth_id: i64,
    pub user_id: i64,
    pub username: String,
    pub password_version: u64,
    pub exp: u64,
}

impl Claim {
    /// Ids are store-assigned and therefore non-negative.
    pub open spec fn wf(&self) -> bool {
        self.auth_id >= 0 && self.user_id >= 0
    }

    /// The claim's payload text.
    pub open spec fn payload(&self) -> Seq<char> {
        payload_of(
            self.auth_id as int,
            self.user_id as int,
            self.password_version as int,
            self.exp as int,
            self.username@,
        )
    }
}

/// The payload text for the given claim fields.
pub open spec fn payload_of(auth_id: int, user_id: int, pv: int, exp: int, name: Seq<char>) -> Seq<
    char,
> {
    u64_dec(auth_id as nat) + seq![','] + u64_dec(user_id as nat) + seq![','] + u64_dec(pv as nat)
        + seq![','] + u64_dec(exp as nat) + seq![','] + name
}

/// Whether a canonical decimal number no larger than `max`, followed by a
/// comma, stands at position `p` of `s`.
pub open spec fn field_comma_ok(s: Seq<char>, p: int, max: int) -> bool {
    let j = digit_run_end(s, p);
    &&& p < j
    &&& !(s[p] == '0' && j > p + 1)
    &&& num_val(s.subrange(p, j)) <= max
    &&& j < s.len()
    &&& s[j] == ','
}

/// The value of the number field at position `p`.
pub open spec fn num_field_val(s: Seq<char>, p: int) -> nat {
    num_val(s.subrange(p, digit_run_end(s, p)))
}

/// The position just past the number field at position `p` (before its
/// comma).
pub open spec fn num_field_end(s: Seq<char>, p: int) -> int {
    digit_run_end(s, p)
}

/// The claim fields a payload text stands for, if it has the canonical
/// shape; `None` otherwise.
pub open spec fn parse_payload(s: Seq<char>) -> Option<(int, int, int, int, Seq<char>)> {
    if !field_comma_ok(s, 0, i64::MAX as int) {
        None
    } else {
        let p1 = num_field_end(s, 0) + 1;
        if !field_comma_ok(s, p1, i64::MAX as int) {
            None
        } else {
            let p2 = num_field_end(s, p1) + 1;
            if !field_comma_ok(s, p2, u64::MAX as int) {
                None
            } else {
                let p3 = num_field_end(s, p2) + 1;
                if !field_comma_ok(s, p3, u64::MAX as int) {
                    None
                } else {
                    let p4 = num_field_end(s, p3) + 1;
                    Some(
                        (
                            num_field_val(s, 0) as int,
                            num_field_val(s, p1) as int,
                            num_field_val(s, p2) as int,
                            num_field_val(s, p3) as int,
                            s.skip(p4),
                        ),
                    )
                }
            }
        }
    }
}

/// A payload accepted by the parser is the canonical payload of the parsed
/// fields, and the numeric fields lie within their bounds.
pub proof fn lemma_parse_payload_sound(s: Seq<char>)
    requires
        parse_payload(s) is Some,
    ensures
        ({
            let f = parse_payload(s)->Some_0;
            &&& 0 <= f.0 <= i64::MAX
            &&& 0 <= f.1 <= i64::MAX
            &&& 0 <= f.2 <= u64::MAX
            &&& 0 <= f.3 <= u64::MAX
            &&& s == payload_of(f.0, f.1, f.2, f.3, f.4)
        }),
{
    let e1 = num_field_end(s, 0);
    let p1 = e1 + 1;
    let e2 = num_field_end(s, p1);
    let p2 = e2 + 1;
    let e3 = num_field_end(s, p2);
    let p3 = e3 + 1;
    let e4 = num_field_end(s, p3);
    let p4 = e4 + 1;
    lemma_field_run_canonical(s, 0);
    lemma_field_run_canonical(s, p1);
    lemma_field_run_canonical(s, p2);
    lemma_field_run_canonical(s, p3);
    let f = parse_payload(s)->Some_0;
    assert(s.subrange(0, e1) == u64_dec(f.0 as nat));
    assert(s.subrange(p1, e2) == u64_dec(f.1 as nat));
    assert(s.subrange(p2, e3) == u64_dec(f.2 as nat));
    assert(s.subrange(p3, e4) == u64_dec(f.3 as nat));
    assert(s =~= s.subrange(0, e1) + seq![s[e1]] + s.subrange(p1, e2) + seq![s[e2]] + s.subrange(
        p2,
        e3,
    ) + seq![s[e3]] + s.subrange(p3, e4) + seq![s[e4]] + s.skip(p4));
    assert(payload_of(f.0, f.1, f.2, f.3, f.4) =~= s);
}

/// The digit run of an accepted field is the canonical rendering of its
/// value.
proof fn lemma_field_run_canonical(s: Seq<char>, p: int)
    requires
        0 <= p <= s.len(),
        ({
            let j = digit_run_end(s, p);
            &&& p < j
            &&& !(s[p] == '0' && j > p + 1)
        }),
    ensures
        s.subrange(p, digit_run_end(s, p)) == u64_dec(num_field_val(s, p)),
        digit_run_end(s, p) <= s.len(),
{
    let j = digit_run_end(s, p);
    lemma_digit_run_end_props(s, p);
    let run = s.subrange(p, j);
    assert forall|k: int| 0 <= k < run.len() implies is_digit(#[trigger] run[k]) by {
        assert(run[k] == s[p + k]);
    }
    if s[p] == '0' {
        assert(j == p + 1);
        assert(run =~= seq!['0']);
        lemma_u64_dec_props(0);
        assert(num_val(run) == 0) by {
            assert(run.drop_last() =~= Seq::<char>::empty());
        }
        assert(u64_dec(0) =~= seq!['0']);
    } else {
        assert(run[0] == s[p]);
        lemma_canonical_run(run, num_val(run));
    }
}

/// The canonical payload of in-range fields parses back to those fields.
pub proof fn lemma_payload_roundtrip(a: int, u: int, pv: int, exp: int, name: Seq<char>)
    requires
        0 <= a <= i64::MAX,
        0 <= u <= i64::MAX,
        0 <= pv <= u64::MAX,
        0 <= exp <= u64::MAX,
    ensures
        parse_payload(payload_of(a, u, pv, exp, name)) == Some((a, u, pv, exp, name)),
{
    let s = payload_of(a, u, pv, exp, name);
    let d1 = u64_dec(a as nat);
    let d2 = u64_dec(u as nat);
    let d3 = u64_dec(pv as nat);
    let d4 = u64_dec(exp as nat);
    lemma_u64_dec_props(a as nat);
    lemma_u64_dec_props(u as nat);
    lemma_u64_dec_props(pv as nat);
    lemma_u64_dec_props(exp as nat);
    let e1 = d1.len() as int;
    let p1 = e1 + 1;
    let e2 = p1 + d2.len();
    let p2 = e2 + 1;
    let e3 = p2 + d3.len();
    let p3 = e3 + 1;
    let e4 = p3 + d4.len();
    let p4 = e4 + 1;
    assert(!is_digit(','));
    lemma_payload_field(s, 0, e1, d1);
    lemma_payload_field(s, p1, e2, d2);
    lemma_payload_field(s, p2, e3, d3);
    lemma_payload_field(s, p3, e4, d4);
    assert(num_val(d1) == a && num_val(d2) == u && num_val(d3) == pv && num_val(d4) == exp);
    assert((d1[0] == '0') == (a == 0) && (d2[0] == '0') == (u == 0) && (d3[0] == '0') == (pv == 0)
        && (d4[0] == '0') == (exp == 0));
    assert(s.skip(p4) =~= name);
    assert(field_comma_ok(s, 0, i64::MAX as int));
    assert(field_comma_ok(s, p1, i64::MAX as int));
    assert(field_comma_ok(s, p2, u64::MAX as int));
    assert(field_comma_ok(s, p3, u64::MAX as int));
}

/// One number-then-comma piece of a payload: the digit run at `p` ends at
/// `e`, holds exactly `d`, and a comma follows.
proof fn lemma_payload_field(s: Seq<char>, p: int, e: int, d: Seq<char>)
    requires
        0 <= p <= e,
        e + 1 <= s.len(),
        d.len() == e - p,
        d.len() >= 1,
        forall|k: int| 0 <= k < d.len() ==> s[p + k] == #[trigger] d[k],
        forall|k: int| 0 <= k < d.len() ==> is_digit(#[trigger] d[k]),
        s[e] == ',',
    ensures
        digit_run_end(s, p) == e,
        s.subrange(p, e) == d,
        num_field_val(s, p) == num_val(d),
        s[p] == d[0],
{
    assert(!is_digit(','));
    assert forall|k: int| p <= k < e implies is_digit(#[trigger] s[k]) by {
        let k0 = k - p;
        assert(s[p + k0] == d[k0]);
    }
    lemma_digit_run_end_is(s, p, e);
    assert(s.subrange(p, e) =~= d) by {
        assert forall|k0: int| 0 <= k0 < d.len() implies s.subrange(p, e)[k0] == d[k0] by {
            assert(s[p + k0] == d[k0]);
        }
    }
    assert(s[p + 0] == d[0]);
}

/// Renders the claim's payload text.
pub fn claim_payload_string(c: &Claim) -> (r: String)
    requires
        c.wf(),
    ensures
        r@ == c.payload(),
{
    let comma = ",";
    proof {
        reveal_strlit(",");
        assert(comma@ =~= seq![',']);
    }
    let mut r = u64_to_string(c.auth_id as u64);
    r.append(comma);
    let piece = u64_to_string(c.user_id as u64);
    r.append(piece.as_str());
    r.append(comma);
    let piece = u64_to_string(c.password_version);
    r.append(piece.as_str());
    r.append(comma);
    let piece = u64_to_string(c.exp);
    r.append(piece.as_str());
    r.append(comma);
    r.append(c.username.as_str());
    proof {
        assert(r@ =~= c.payload());
    }
    r
}

/// Parses one canonical number field (at most `max`) and the comma after it;
/// returns the value and the position just past the comma.
fn parse_field_comma(v: &Vec<char>, pos: usize, max: u64) -> (r: Option<(u64, usize)>)
    requires
        pos <= v@.len(),
    ensures
        r is None ==> !field_comma_ok(v@, pos as int, max as int),
        r matches Some(p) ==> field_comma_ok(v@, pos as int, max as int) && p.0
            == num_field_val(v@, pos as int) && p.1 == num_field_end(v@, pos as int) + 1 && pos
            < p.1 <= v@.len(),
{
    let ghost s = v@;
    let ghost j = digit_run_end(s, pos as int);
    proof {
        lemma_digit_run_end_props(s, pos as int);
    }
    match parse_u64(v, pos) {
        None => {
            proof {
                if pos < s.len() && is_digit(s[pos as int]) {
                    assert(s[pos as int] != '0');
                    assert(num_val(s.subrange(pos as int, j)) > u64::MAX);
                }
            }
            None
        },
        Some((val, next)) => {
            proof {
                assert(s.subrange(pos as int, next as int) == u64_dec(val as nat));
                lemma_u64_dec_props(val as nat);
                assert(num_val(s.subrange(pos as int, next as int)) == val as nat);
                if s[pos as int] == '0' {
                    assert(next == pos + 1);
                    assert(val == 0);
                } else {
                    assert(next == j);
                }
            }
            if val > max {
                proof {
                    // A value over the bound fails the field check whether or
                    // not the run continued past a leading zero.
                    if !(s[pos as int] == '0' && j > pos + 1) {
                        assert(next == j) by {
                            if s[pos as int] == '0' {
                                assert(j == pos + 1);
                            }
                        }
                        assert(num_field_val(s, pos as int) == val as nat);
                    }
                }
                return None;
            }
            if next < v.len() && v[next] == ',' {
                proof {
                    // A comma right after the parsed digits means the digit
                    // run ended there, so the field is canonical.
                    assert(next == j) by {
                        if next < j {
                            assert(is_digit(s[next as int]));
                            assert(!is_digit(','));
                        }
                    }
                    assert(num_field_val(s, pos as int) == val as nat);
                }
                Some((val, next + 1))
            } else {
                proof {
                    if !(s[pos as int] == '0' && j > pos + 1) {
                        assert(next == j) by {
                            if s[pos as int] == '0' {
                                assert(j == pos + 1);
                            }
                        }
                        if j < s.len() {
                            assert(s[j] != ',');
                        }
                    } else {
                        assert(is_digit(s[next as int]));
                        assert(!is_digit(','));
                    }
                }
                None
            }
        },
    }
}

/// Parses a payload text back into a claim.
///
/// Succeeds exactly on the canonical payloads `claim_payload_string`
/// produces, and then recovers the fields unchanged.
pub fn parse_claim(s: &str) -> (r: Option<Claim>)
    ensures
        parse_payload(s@) is None ==> r is None,
        parse_payload(s@) matches Some(f) ==> (r matches Some(c) && c.wf() && c.auth_id == f.0
            && c.user_id == f.1 && c.password_version == f.2 && c.exp == f.3 && c.username@
            == f.4),
        r matches Some(c) ==> c.wf() && s@ == c.payload(),
{
    let v = to_char_vec(s);
    let r1 = parse_field_comma(&v, 0, i64::MAX as u64);
    let (a, p1) = match r1 {
        None => {
            return None;
        },
        Some(p) => p,
    };
    let r2 = parse_field_comma(&v, p1, i64::MAX as u64);
    let (u, p2) = match r2 {
        None => {
            return None;
        },
        Some(p) => p,
    };
    let r3 = parse_field_comma(&v, p2, u64::MAX);
    let (pv, p3) = match r3 {
        None => {
            return None;
        },
        Some(p) => p,
    };
    let r4 = parse_field_comma(&v, p3, u64::MAX);
    let (exp, p4) = match r4 {
        None => {
            return None;
        },
        Some(p) => p,
    };
    let n = s.unicode_len();
    let name = s.substring_char(p4, n);
    let c = Claim {
        auth_id: a as i64,
        user_id: u as i64,
        username: name.to_owned(),
        password_version: pv,
        exp,
    };
    proof {
        let f = parse_payload(s@)->Some_0;
        assert(c.username@ =~= f.4);
        lemma_parse_payload_sound(s@);
    }
    Some(c)
}

} // verus!
