//! Decimal rendering and parsing of unsigned integers, over character
//! sequences.
//!
//! Identifiers (credential ids, principal ids), password versions, and expiry
//! timestamps all travel as decimal text inside token payloads and inside the
//! delimited set encoding of the store.  This module pins down the canonical
//! decimal form of a number (`u64_dec`), the value of a digit string
//! (`num_val`), and verified renderers and parsers that invert each other.

use vstd::prelude::*;
use vstd::string::*;

verus! {

broadcast use vstd::utf8::char_is_scalar, vstd::utf8::char_u32_cast;

/// Whether `c` is a decimal digit.
pub open spec fn is_digit(c: char) -> bool {
    48 <= c as u32 && c as u32 <= 57
}

/// The digit character standing for the value `d` (meaningful for `d < 10`).
pub open spec fn digit_char(d: nat) -> char {
    if d == 0 {
        '0'
    } else if d == 1 {
        '1'
    } else if d == 2 {
        '2'
    } else if d == 3 {
        '3'
    } else if d == 4 {
        '4'
    } else if d == 5 {
        '5'
    } else if d == 6 {
        '6'
    } else if d == 7 {
        '7'
    } else if d == 8 {
        '8'
    } else {
        '9'
    }
}

/// The value a digit character stands for.
pub open spec fn digit_val(c: char) -> nat {
    (c as u32 - 48) as nat
}

/// The canonical decimal rendering of `n`: no sign, no leading zero except
/// for `n == 0` itself.
pub open spec fn u64_dec(n: nat) -> Seq<char>
    decreases n,
{
    if n < 10 {
        seq![digit_char(n)]
    } else {
        u64_dec(n / 10).push(digit_char(n % 10))
    }
}

/// The numeric value of a digit string, most significant digit first.
pub open spec fn num_val(s: Seq<char>) -> nat
    decreases s.len(),
{
    if s.len() == 0 {
        0
    } else {
        num_val(s.drop_last()) * 10 + digit_val(s.last())
    }
}

/// Whether every character of `s` is a decimal digit.
pub open spec fn all_digits(s: Seq<char>) -> bool {
    forall|i: int| 0 <= i < s.len() ==> is_digit(#[trigger] s[i])
}

/// The position just past the run of digits of `s` that starts at `i`.
pub open spec fn digit_run_end(s: Seq<char>, i: int) -> int
    decreases s.len() - i,
{
    if 0 <= i && i < s.len() && is_digit(s[i]) {
        digit_run_end(s, i + 1)
    } else {
        i
    }
}

/// `digit_char` and `digit_val` invert each other on digit values.
pub proof fn lemma_digit_char_val(d: nat)
    requires
        d < 10,
    ensures
        is_digit(digit_char(d)),
        digit_val(digit_char(d)) == d,
        (digit_char(d) == '0') == (d == 0),
{
}

/// `digit_char` and `digit_val` invert each other on digit characters.
pub proof fn lemma_digit_char_of_val(c: char)
    requires
        is_digit(c),
    ensures
        digit_char(digit_val(c)) == c,
{
    let d = digit_char(digit_val(c));
    assert(d as u32 == c as u32);
    vstd::utf8::char_u32_cast(d, d as u32);
    vstd::utf8::char_u32_cast(c, c as u32);
}

/// The canonical rendering of `n` is a nonempty digit string whose value is
/// `n`, and it starts with `'0'` only for `n == 0`.
pub proof fn lemma_u64_dec_props(n: nat)
    ensures
        u64_dec(n).len() >= 1,
        all_digits(u64_dec(n)),
        (u64_dec(n)[0] == '0') == (n == 0),
        num_val(u64_dec(n)) == n,
    decreases n,
{
    if n < 10 {
        lemma_digit_char_val(n);
        let s = u64_dec(n);
        assert(s == seq![digit_char(n)]);
        assert(s.len() == 1);
        assert(s.last() == digit_char(n));
        assert(s.drop_last() =~= Seq::<char>::empty());
        assert(num_val(s.drop_last()) == 0);
        assert(num_val(s) == digit_val(digit_char(n)));
    } else {
        lemma_u64_dec_props(n / 10);
        lemma_digit_char_val(n % 10);
        let p = u64_dec(n / 10);
        let s = u64_dec(n);
        assert(s == p.push(digit_char(n % 10)));
        assert(s.drop_last() =~= p);
        assert(s.last() == digit_char(n % 10));
        assert(num_val(s) == (n / 10) * 10 + (n % 10));
        vstd::arithmetic::div_mod::lemma_fundamental_div_mod(n as int, 10);
        assert(n == (n / 10) * 10 + (n % 10));
        assert(n / 10 >= 1);
        assert(s[0] == p[0]);
        assert forall|i: int| 0 <= i < s.len() implies is_digit(#[trigger] s[i]) by {
            if i < p.len() {
                assert(s[i] == p[i]);
            }
        }
    }
}

/// The value of a prefix of a digit string never exceeds the value of the
/// whole string.
pub proof fn lemma_num_val_take(s: Seq<char>, k: int)
    requires
        0 <= k <= s.len(),
    ensures
        num_val(s.take(k)) <= num_val(s),
    decreases s.len(),
{
    if k < s.len() {
        assert(s.take(k) =~= s.drop_last().take(k));
        lemma_num_val_take(s.drop_last(), k);
        assert(num_val(s) == num_val(s.drop_last()) * 10 + digit_val(s.last()));
        assert(num_val(s.drop_last()) * 10 >= num_val(s.drop_last()));
    } else {
        assert(s.take(k) =~= s);
    }
}

/// A digit run is bounded by the first non-digit: if `[i, j)` holds digits
/// and `j` is the end of the string or a non-digit, the run from `i` ends
/// exactly at `j`.
pub proof fn lemma_digit_run_end_is(s: Seq<char>, i: int, j: int)
    requires
        0 <= i <= j <= s.len(),
        forall|k: int| i <= k < j ==> is_digit(#[trigger] s[k]),
        j == s.len() || !is_digit(s[j]),
    ensures
        digit_run_end(s, i) == j,
    decreases j - i,
{
    if i < j {
        lemma_digit_run_end_is(s, i + 1, j);
    }
}

/// Basic bounds of `digit_run_end`: the run lies inside the string, holds
/// digits only, and is maximal.
pub proof fn lemma_digit_run_end_props(s: Seq<char>, i: int)
    requires
        0 <= i <= s.len(),
    ensures
        i <= digit_run_end(s, i) <= s.len(),
        forall|k: int| i <= k < digit_run_end(s, i) ==> is_digit(#[trigger] s[k]),
        digit_run_end(s, i) == s.len() || !is_digit(s[digit_run_end(s, i)]),
    decreases s.len() - i,
{
    if i < s.len() && is_digit(s[i]) {
        lemma_digit_run_end_props(s, i + 1);
    }
}

/// Builds the character vector of a string slice, one character at a time.
pub fn to_char_vec(s: &str) -> (v: Vec<char>)
    ensures
        v@ == s@,
{
    let n = s.unicode_len();
    let mut v: Vec<char> = Vec::new();
    let mut i: usize = 0;
    while i < n
        invariant
            i <= n,
            n == s@.len(),
            v@ == s@.take(i as int),
        decreases n - i,
    {
        let c = s.get_char(i);
        v.push(c);
        i = i + 1;
        assert(v@ =~= s@.take(i as int));
    }
    assert(v@ =~= s@);
    v
}

/// The one-character string slice for a digit value.
fn digit_str(d: u64) -> (r: &'static str)
    requires
        d < 10,
    ensures
        r@ == seq![digit_char(d as nat)],
{
    proof {
        reveal_strlit("0");
        reveal_strlit("1");
        reveal_strlit("2");
        reveal_strlit("3");
        reveal_strlit("4");
        reveal_strlit("5");
        reveal_strlit("6");
        reveal_strlit("7");
        reveal_strlit("8");
        reveal_strlit("9");
    }
    let r = match d {
        0 => "0",
        1 => "1",
        2 => "2",
        3 => "3",
        4 => "4",
        5 => "5",
        6 => "6",
        7 => "7",
        8 => "8",
        _ => "9",
    };
    proof {
        assert(r@ =~= seq![digit_char(d as nat)]);
    }
    r
}

/// The digits of `n` in reverse order, as characters.
spec fn rev_digit_chars(ds: Seq<u64>) -> Seq<char> {
    Seq::new(ds.len(), |i: int| digit_char(ds[ds.len() - 1 - i] as nat))
}

/// Renders `n` in its canonical decimal form.
pub fn u64_to_string(n: u64) -> (r: String)
    ensures
        r@ == u64_dec(n as nat),
{
    if n == 0 {
        let r = String::from_str("0");
        proof {
            reveal_strlit("0");
            assert(r@ =~= u64_dec(0));
        }
        return r;
    }
    let mut digits: Vec<u64> = Vec::new();
    let mut m: u64 = n;
    while m > 0
        invariant
            u64_dec(n as nat) == if m > 0 {
                u64_dec(m as nat) + rev_digit_chars(digits@)
            } else {
                rev_digit_chars(digits@)
            },
            forall|i: int| 0 <= i < digits@.len() ==> #[trigger] digits@[i] < 10,
        decreases m,
    {
        let d: u64 = m % 10;
        let ghost old_digits = digits@;
        let ghost old_m = m as nat;
        digits.push(d);
        m = m / 10;
        proof {
            assert(rev_digit_chars(old_digits.push(d)) =~= seq![digit_char(d as nat)]
                + rev_digit_chars(old_digits));
            if old_m >= 10 {
                assert(u64_dec(old_m) == u64_dec(old_m / 10).push(digit_char(old_m % 10)));
                assert(u64_dec(old_m / 10).push(digit_char(old_m % 10)) =~= u64_dec(old_m / 10)
                    + seq![digit_char(old_m % 10)]);
                assert(u64_dec(m as nat) + rev_digit_chars(digits@) =~= u64_dec(old_m)
                    + rev_digit_chars(old_digits));
            } else {
                assert(u64_dec(old_m) == seq![digit_char(old_m)]);
                assert(rev_digit_chars(digits@) =~= u64_dec(old_m) + rev_digit_chars(old_digits));
            }
        }
    }
    let ghost target = u64_dec(n as nat);
    proof {
        assert(target == rev_digit_chars(digits@));
    }
    let mut r = String::new();
    let count = digits.len();
    let mut k: usize = 0;
    while k < count
        invariant
            k <= count,
            count == digits@.len(),
            forall|i: int| 0 <= i < digits@.len() ==> #[trigger] digits@[i] < 10,
            target == rev_digit_chars(digits@),
            r@ == target.take(k as int),
        decreases count - k,
    {
        let piece = digit_str(digits[count - 1 - k]);
        r.append(piece);
        k = k + 1;
        proof {
            assert(r@ =~= target.take(k as int));
        }
    }
    proof {
        assert(r@ =~= target);
    }
    r
}

/// Parses the digit run of `s` that starts at `start`.
///
/// The parser is canonical: a leading `'0'` ends the number at once, so the
/// only accepted spelling of a value is its `u64_dec` form.  It returns the
/// parsed value and the position just past it, or `None` when no digit is
/// present or the run's value does not fit in a `u64`.
pub fn parse_u64(s: &Vec<char>, start: usize) -> (r: Option<(u64, usize)>)
    requires
        start <= s@.len(),
    ensures
        (start == s@.len() || !is_digit(s@[start as int])) ==> r is None,
        (start < s@.len() && s@[start as int] == '0') ==> r == Some((0u64, (start + 1) as usize)),
        (start < s@.len() && is_digit(s@[start as int]) && s@[start as int] != '0') ==> {
            let j = digit_run_end(s@, start as int);
            let v = num_val(s@.subrange(start as int, j));
            if v <= u64::MAX {
                &&& r is Some
                &&& r->Some_0.0 == v
                &&& r->Some_0.1 == j
            } else {
                r is None
            }
        },
        r is Some ==> start < r->Some_0.1 <= s@.len() && s@.subrange(
            start as int,
            r->Some_0.1 as int,
        ) == u64_dec(r->Some_0.0 as nat),
{
    let n = s.len();
    if start >= n {
        return None;
    }
    let c0 = s[start];
    if !(48 <= c0 as u32 && c0 as u32 <= 57) {
        return None;
    }
    if c0 as u32 == 48 {
        proof {
            assert(c0 as u32 == '0' as u32);
            vstd::utf8::char_u32_cast(c0, c0 as u32);
            vstd::utf8::char_u32_cast('0', '0' as u32);
            assert(c0 == '0');
            assert(s@.subrange(start as int, start + 1) =~= seq!['0']);
            assert(u64_dec(0) =~= seq!['0']);
        }
        return Some((0, start + 1));
    }
    let ghost j = digit_run_end(s@, start as int);
    proof {
        lemma_digit_run_end_props(s@, start as int);
    }
    let mut v: u64 = 0;
    let mut i: usize = start;
    while i < n && 48 <= s[i] as u32 && s[i] as u32 <= 57
        invariant
            start <= i <= n,
            n == s@.len(),
            is_digit(s@[start as int]),
            s@[start as int] != '0',
            j == digit_run_end(s@, start as int),
            start <= j <= n,
            forall|k: int| start <= k < j ==> is_digit(#[trigger] s@[k]),
            j == s@.len() || !is_digit(s@[j]),
            i <= j,
            v == num_val(s@.subrange(start as int, i as int)),
        decreases n - i,
    {
        let c = s[i];
        let d: u64 = (c as u32 - 48) as u64;
        proof {
            assert(is_digit(c));
            assert(i < j) by {
                if i >= j {
                    assert(j < s@.len() && is_digit(s@[j]));
                }
            }
            assert(s@.subrange(start as int, i + 1).drop_last() =~= s@.subrange(
                start as int,
                i as int,
            ));
            assert(num_val(s@.subrange(start as int, i + 1)) == v * 10 + d);
        }
        if v > (u64::MAX - d) / 10 {
            proof {
                vstd::arithmetic::div_mod::lemma_fundamental_div_mod(
                    (u64::MAX - d) as int,
                    10,
                );
                assert(v * 10 + d > u64::MAX);
                assert(s@.subrange(start as int, i + 1) =~= s@.subrange(start as int, j).take(
                    i + 1 - start,
                ));
                lemma_num_val_take(s@.subrange(start as int, j), i + 1 - start);
                assert(num_val(s@.subrange(start as int, j)) > u64::MAX);
            }
            return None;
        }
        proof {
            vstd::arithmetic::div_mod::lemma_fundamental_div_mod((u64::MAX - d) as int, 10);
            assert(v * 10 + d <= u64::MAX);
        }
        v = v * 10 + d;
        i = i + 1;
    }
    proof {
        assert(i == j) by {
            if i < j {
                assert(is_digit(s@[i as int]));
            }
        }
        let run = s@.subrange(start as int, j);
        assert(v == num_val(run));
        lemma_u64_dec_props(v as nat);
        lemma_canonical_run(run, v as nat);
    }
    Some((v, i))
}

/// Parses a whole string as one canonical decimal id.
///
/// Whether `s` is the canonical decimal spelling of a value that fits a
/// signed id — exactly the strings `u64_to_string` produces for ids.
pub open spec fn is_canonical_id(s: Seq<char>) -> bool {
    exists|v: nat| v <= i64::MAX && s == u64_dec(v)
}

/// Succeeds exactly when the string is `u64_dec(v)` for a value that fits a
/// signed id — the only spelling `u64_to_string` produces — and then returns
/// that value.
pub fn parse_id(s: &str) -> (r: Option<i64>)
    ensures
        r matches Some(v) ==> v >= 0 && s@ == u64_dec(v as nat),
        is_canonical_id(s@) ==> r is Some,
{
    let v = to_char_vec(s);
    let n = v.len();
    let r = match parse_u64(&v, 0) {
        Some((val, next)) => {
            if next == n && val <= i64::MAX as u64 {
                proof {
                    assert(s@.subrange(0, n as int) =~= s@);
                }
                Some(val as i64)
            } else {
                None
            }
        },
        None => None,
    };
    proof {
        if exists|w: nat| w <= i64::MAX && s@ == u64_dec(w) {
            let w = choose|w: nat| w <= i64::MAX && s@ == u64_dec(w);
            lemma_u64_dec_props(w);
            if w == 0 {
                assert(s@ =~= seq!['0']);
                assert(s@[0] == '0');
            } else {
                assert(s@[0] != '0');
                lemma_digit_run_end_is(s@, 0, n as int);
                assert(s@.subrange(0, n as int) =~= s@);
                assert(num_val(s@.subrange(0, n as int)) == w);
            }
            assert(r is Some);
        }
    }
    r
}

/// A digit run that does not start with `'0'` and has value `n` is exactly
/// `u64_dec(n)`.
pub proof fn lemma_canonical_run(s: Seq<char>, n: nat)
    requires
        s.len() >= 1,
        all_digits(s),
        s[0] != '0',
        num_val(s) == n,
    ensures
        s == u64_dec(n),
    decreases s.len(),
{
    if s.len() == 1 {
        assert(is_digit(s[0]));
        lemma_digit_char_of_val(s[0]);
        assert(s.drop_last() =~= Seq::<char>::empty());
        assert(num_val(s.drop_last()) == 0);
        assert(s.last() == s[0]);
        assert(n == digit_val(s[0]));
        assert(n < 10);
        assert(u64_dec(n) =~= s);
    } else {
        let p = s.drop_last();
        let d = digit_val(s.last());
        assert(num_val(s) == num_val(p) * 10 + d);
        assert(d < 10) by {
            assert(is_digit(s.last()));
        }
        assert(all_digits(p)) by {
            assert forall|i: int| 0 <= i < p.len() implies is_digit(#[trigger] p[i]) by {
                assert(p[i] == s[i]);
            }
        }
        assert(p[0] == s[0]);
        lemma_canonical_run(p, num_val(p));
        assert(num_val(p) >= 1) by {
            lemma_u64_dec_props(num_val(p));
            if num_val(p) == 0 {
                assert(p == u64_dec(0));
                assert(p[0] == '0');
            }
        }
        assert(n >= 10);
        assert(n / 10 == num_val(p) && n % 10 == d) by {
            vstd::arithmetic::div_mod::lemma_fundamental_div_mod_converse(
                n as int,
                10,
                num_val(p) as int,
                d as int,
            );
        }
        lemma_digit_char_of_val(s.last());
        assert(digit_char(d) == s.last());
        assert(u64_dec(n) == u64_dec(n / 10).push(digit_char(n % 10)));
        assert(u64_dec(n) =~= s);
    }
}

} // verus!
