//! The delimited string encoding of id sets.
//!
//! The store keeps each set-valued relation as one text column: the members'
//! decimal ids joined by `", "`.  `convert_set_to_string` produces that
//! canonical encoding and `convert_string_to_set` accepts exactly the strings
//! it produces, so a round trip through the store preserves the set.

use crate::idset::{sorted_ids, IdSet};
use crate::numstr::{
    all_digits, digit_run_end, is_digit, lemma_canonical_run, lemma_digit_run_end_is,
    lemma_digit_run_end_props, lemma_u64_dec_props, num_val, parse_u64, to_char_vec, u64_dec,
    u64_to_string,
};
use vstd::prelude::*;
use vstd::string::*;

verus! {

broadcast use vstd::seq_lib::group_seq_lib_default;

/// The canonical string encoding of a member sequence: the members' decimal
/// renderings joined by `", "`.
pub open spec fn set_encoding(ids: Seq<i64>) -> Seq<char>
    decreases ids.len(),
{
    if ids.len() == 0 {
        Seq::<char>::empty()
    } else if ids.len() == 1 {
        u64_dec(ids[0] as nat)
    } else {
        u64_dec(ids[0] as nat) + seq![',', ' '] + set_encoding(ids.drop_first())
    }
}

/// The member sequence a nonempty set string stands for, if the string is a
/// canonical encoding; `None` otherwise.
pub open spec fn parse_ids_chars(s: Seq<char>) -> Option<Seq<i64>>
    decreases s.len(),
{
    let j = digit_run_end(s, 0);
    if j < 1 || j > s.len() {
        None
    } else if s[0] == '0' && j > 1 {
        None
    } else if num_val(s.take(j)) > i64::MAX {
        None
    } else {
        let v = num_val(s.take(j)) as i64;
        if j == s.len() {
            Some(seq![v])
        } else if j + 2 <= s.len() && s[j] == ',' && s[j + 1] == ' ' {
            if parse_ids_chars(s.skip(j + 2)) is Some {
                Some(seq![v] + parse_ids_chars(s.skip(j + 2))->Some_0)
            } else {
                None
            }
        } else {
            None
        }
    }
}

/// Splitting a canonical encoding after `k` members splits the string at a
/// separator.
proof fn lemma_set_encoding_split(t: Seq<i64>, k: int)
    requires
        1 <= k < t.len(),
    ensures
        set_encoding(t) == set_encoding(t.take(k)) + seq![',', ' '] + set_encoding(t.skip(k)),
    decreases k,
{
    if k == 1 {
        assert(t.take(1) =~= seq![t[0]]);
        assert(t.skip(1) =~= t.drop_first());
        assert(set_encoding(t.take(1)) == u64_dec(t[0] as nat));
        assert(set_encoding(t) =~= set_encoding(t.take(1)) + seq![',', ' '] + set_encoding(
            t.skip(1),
        ));
    } else {
        let r = t.drop_first();
        lemma_set_encoding_split(r, k - 1);
        assert(r.take(k - 1) =~= t.take(k).drop_first());
        assert(r.skip(k - 1) =~= t.skip(k));
        assert(t.take(k).len() == k >= 2);
        assert(set_encoding(t.take(k)) == u64_dec(t.take(k)[0] as nat) + seq![',', ' ']
            + set_encoding(t.take(k).drop_first()));
        assert(t.take(k)[0] == t[0]);
        assert(set_encoding(t) == u64_dec(t[0] as nat) + seq![',', ' '] + set_encoding(r));
        assert(set_encoding(t) =~= set_encoding(t.take(k)) + seq![',', ' '] + set_encoding(
            t.skip(k),
        ));
    }
}

/// A digit run viewed from an offset is the digit run of the suffix.
pub proof fn lemma_digit_run_shift(s: Seq<char>, pos: int)
    requires
        0 <= pos <= s.len(),
    ensures
        digit_run_end(s.skip(pos), 0) == digit_run_end(s, pos) - pos,
{
    let j = digit_run_end(s, pos);
    lemma_digit_run_end_props(s, pos);
    let t = s.skip(pos);
    assert forall|k: int| 0 <= k < j - pos implies is_digit(#[trigger] t[k]) by {
        assert(t[k] == s[k + pos]);
    }
    if j - pos < t.len() {
        assert(t[j - pos] == s[j]);
    }
    lemma_digit_run_end_is(t, 0, j - pos);
}

/// A string accepted by the parser is the canonical encoding of what it
/// parsed to, and every parsed id is a non-negative count of one or more.
pub proof fn lemma_parse_sound(s: Seq<char>)
    requires
        parse_ids_chars(s) is Some,
    ensures
        ({
            let ids = parse_ids_chars(s)->Some_0;
            &&& ids.len() >= 1
            &&& forall|k: int| 0 <= k < ids.len() ==> #[trigger] ids[k] >= 0
            &&& set_encoding(ids) == s
        }),
    decreases s.len(),
{
    let j = digit_run_end(s, 0);
    lemma_digit_run_end_props(s, 0);
    let run = s.take(j);
    let v = num_val(run) as i64;
    assert(all_digits(run)) by {
        assert forall|k: int| 0 <= k < run.len() implies is_digit(#[trigger] run[k]) by {
            assert(run[k] == s[k]);
        }
    }
    assert(run == u64_dec(v as nat)) by {
        if s[0] == '0' {
            assert(j == 1);
            assert(run =~= seq!['0']);
            lemma_u64_dec_props(0);
            assert(num_val(run) == 0) by {
                assert(run.drop_last() =~= Seq::<char>::empty());
            }
            assert(u64_dec(0) =~= seq!['0']);
        } else {
            lemma_canonical_run(run, num_val(run));
        }
    }
    if j == s.len() {
        let ids = seq![v];
        assert(parse_ids_chars(s) == Some(ids));
        assert(set_encoding(ids) == u64_dec(v as nat));
        assert(run =~= s);
    } else {
        let rest = parse_ids_chars(s.skip(j + 2));
        lemma_parse_sound(s.skip(j + 2));
        let ids = seq![v] + rest->Some_0;
        assert(parse_ids_chars(s) == Some(ids));
        assert(ids.len() >= 2);
        assert(ids[0] == v);
        assert(ids.drop_first() =~= rest->Some_0);
        assert(set_encoding(ids) == u64_dec(v as nat) + seq![',', ' '] + set_encoding(
            rest->Some_0,
        ));
        assert(s =~= run + seq![s[j], s[j + 1]] + s.skip(j + 2));
        assert(set_encoding(ids) =~= s);
        assert forall|k: int| 0 <= k < ids.len() implies #[trigger] ids[k] >= 0 by {
            if k >= 1 {
                assert(ids[k] == rest->Some_0[k - 1]);
            }
        }
    }
}

/// The canonical encoding of non-negative ids parses back to those ids.
pub proof fn lemma_encoding_parses(t: Seq<i64>)
    requires
        t.len() >= 1,
        forall|k: int| 0 <= k < t.len() ==> #[trigger] t[k] >= 0,
    ensures
        parse_ids_chars(set_encoding(t)) == Some(t),
    decreases t.len(),
{
    let s = set_encoding(t);
    let d0 = u64_dec(t[0] as nat);
    lemma_u64_dec_props(t[0] as nat);
    if t.len() == 1 {
        assert(s == d0);
        lemma_digit_run_end_is(s, 0, s.len() as int);
        let j = digit_run_end(s, 0);
        assert(j == s.len());
        assert(s.take(j) =~= d0);
        assert(num_val(s.take(j)) == t[0] as nat);
        if s[0] == '0' {
            assert(t[0] == 0);
            assert(j == 1);
        }
        assert(parse_ids_chars(s) == Some(seq![t[0] as i64]));
        assert(seq![t[0]] =~= t);
    } else {
        let r = t.drop_first();
        assert(s == d0 + seq![',', ' '] + set_encoding(r));
        let j = d0.len() as int;
        assert forall|k: int| 0 <= k < j implies is_digit(#[trigger] s[k]) by {
            assert(s[k] == d0[k]);
        }
        assert(s[j] == ',');
        assert(!is_digit(','));
        lemma_digit_run_end_is(s, 0, j);
        assert(digit_run_end(s, 0) == j);
        assert(s.take(j) =~= d0);
        assert(num_val(s.take(j)) == t[0] as nat);
        if s[0] == '0' {
            assert(d0[0] == '0');
            assert(t[0] == 0);
            assert(j == 1);
        }
        assert(j + 2 <= s.len());
        assert(s[j + 1] == ' ');
        assert(s.skip(j + 2) =~= set_encoding(r));
        assert(forall|k: int| 0 <= k < r.len() ==> #[trigger] r[k] >= 0);
        lemma_encoding_parses(r);
        assert(parse_ids_chars(s) == Some(seq![t[0] as i64] + r));
        assert(seq![t[0]] + r =~= t);
    }
}

/// Renders the members of `set` as decimal ids joined by `", "`; the empty
/// set becomes the empty string.
pub fn convert_set_to_string(set: &IdSet) -> (r: String)
    requires
        set.wf(),
    ensures
        r@ == set_encoding(set.seq()),
{
    let ghost t = set.seq();
    let n = set.len();
    proof {
        set.lemma_card();
    }
    let mut r = String::new();
    let mut k: usize = 0;
    while k < n
        invariant
            k <= n,
            n == t.len(),
            t == set.seq(),
            set.wf(),
            k == 0 ==> r@ == Seq::<char>::empty(),
            k >= 1 ==> r@ == set_encoding(t.take(k as int)),
        decreases n - k,
    {
        let m = set.member_at(k);
        proof {
            assert(t[k as int] >= 0);
        }
        let piece = u64_to_string(m as u64);
        if k == 0 {
            r.append(piece.as_str());
            proof {
                assert(t.take(1) =~= seq![t[0]]);
                assert(r@ =~= set_encoding(t.take(1)));
            }
        } else {
            let sep = ", ";
            proof {
                reveal_strlit(", ");
                assert(sep@ =~= seq![',', ' ']);
            }
            r.append(sep);
            r.append(piece.as_str());
            proof {
                lemma_set_encoding_split(t.take(k + 1), k as int);
                assert(t.take(k + 1).take(k as int) =~= t.take(k as int));
                assert(t.take(k + 1).skip(k as int) =~= seq![t[k as int]]);
                assert(set_encoding(seq![t[k as int]]) == u64_dec(t[k as int] as nat));
                assert(r@ =~= set_encoding(t.take(k + 1)));
            }
        }
        k = k + 1;
    }
    proof {
        if n == 0 {
            assert(r@ =~= set_encoding(t));
        } else {
            assert(t.take(n as int) =~= t);
        }
    }
    r
}

/// Reads a set back from its stored string.
///
/// The empty string stands for the empty set.  A nonempty string is accepted
/// exactly when it is the canonical encoding of a strictly increasing
/// sequence of non-negative ids — that is, exactly when
/// `convert_set_to_string` could have produced it.
pub fn convert_string_to_set(s: &str) -> (r: Option<IdSet>)
    ensures
        s@.len() == 0 ==> (r matches Some(t) && t.wf() && t@ == Set::<i64>::empty()),
        s@.len() > 0 ==> (match parse_ids_chars(s@) {
            Some(ids) => {
                if sorted_ids(ids) {
                    r matches Some(t) && t.wf() && t.seq() == ids && t@ == ids.to_set()
                } else {
                    r is None
                }
            },
            None => r is None,
        }),
        r matches Some(t) ==> t.wf() && s@ == set_encoding(t.seq()),
{
    let v = to_char_vec(s);
    let n = v.len();
    if n == 0 {
        let t = IdSet::new();
        proof {
            assert(set_encoding(t.seq()) =~= s@);
        }
        return Some(t);
    }
    let mut ids: Vec<i64> = Vec::new();
    let mut pos: usize = 0;
    proof {
        assert(s@.skip(0) =~= s@);
        if parse_ids_chars(s@) is Some {
            let whole = parse_ids_chars(s@)->Some_0;
            lemma_parse_sound(s@);
            assert(ids@ + whole =~= whole);
        }
    }
    loop
        invariant
            pos <= n,
            n == v@.len(),
            v@ == s@,
            n >= 1,
            sorted_ids(ids@),
            pos == 0 ==> ids@.len() == 0,
            pos > 0 ==> ids@.len() >= 1,
            parse_ids_chars(s@.skip(pos as int)) matches Some(rest) ==> (rest.len() >= 1
                && parse_ids_chars(s@) == Some(ids@ + rest)),
            parse_ids_chars(s@.skip(pos as int)) is None ==> parse_ids_chars(s@) is None,
        decreases n - pos,
    {
        let ghost suffix = s@.skip(pos as int);
        proof {
            lemma_digit_run_shift(s@, pos as int);
            lemma_digit_run_end_props(s@, pos as int);
            if pos < n {
                assert(suffix[0] == s@[pos as int]);
            }
        }
        let ghost j_abs = digit_run_end(s@, pos as int);
        let parsed = parse_u64(&v, pos);
        match parsed {
            None => {
                proof {
                    // Either no digit starts here, or the run overflows u64;
                    // both make the suffix unparseable.
                    if pos < n && is_digit(s@[pos as int]) {
                        assert(s@[pos as int] != '0');
                        assert(num_val(s@.subrange(pos as int, j_abs)) > u64::MAX);
                        assert(suffix.take(j_abs - pos) =~= s@.subrange(pos as int, j_abs));
                        assert(num_val(suffix.take(j_abs - pos)) > i64::MAX);
                        assert(digit_run_end(suffix, 0) == j_abs - pos);
                        assert(parse_ids_chars(suffix) is None);
                    } else {
                        assert(digit_run_end(suffix, 0) == 0) by {
                            if pos < n {
                                assert(suffix[0] == s@[pos as int]);
                            }
                            lemma_digit_run_end_props(suffix, 0);
                            if digit_run_end(suffix, 0) > 0 {
                                assert(is_digit(suffix[0]));
                            }
                        }
                        assert(parse_ids_chars(suffix) is None);
                    }
                }
                return None;
            },
            Some((val, next)) => {
                proof {
                    assert(pos < next <= n);
                    assert(s@.subrange(pos as int, next as int) == u64_dec(val as nat));
                    lemma_u64_dec_props(val as nat);
                    assert(num_val(s@.subrange(pos as int, next as int)) == val as nat);
                }
                if val > i64::MAX as u64 {
                    proof {
                        // The member is a valid run but its value does not
                        // fit a signed id, so the suffix is unparseable.
                        lemma_u64_dec_props(val as nat);
                        assert(s@[pos as int] != '0');
                        assert(next == j_abs);
                        assert(suffix.take(j_abs - pos) =~= s@.subrange(pos as int, j_abs));
                        assert(digit_run_end(suffix, 0) == j_abs - pos);
                        assert(num_val(suffix.take(j_abs - pos)) == val as nat);
                        assert(parse_ids_chars(suffix) is None);
                    }
                    return None;
                }
                let id = val as i64;
                let ghost js = digit_run_end(suffix, 0);
                proof {
                    // Align the executable parse with the one-member step of
                    // the suffix parser.
                    assert(js == j_abs - pos);
                    if s@[pos as int] == '0' {
                        assert(next == pos + 1);
                        assert(val == 0);
                    } else {
                        assert(next == j_abs);
                    }
                    assert(suffix.take(next - pos) =~= s@.subrange(pos as int, next as int));
                }
                if !ids.is_empty() {
                    let prev = ids[ids.len() - 1];
                    if prev >= id {
                        proof {
                            // The full member list cannot be sorted: `id`
                            // follows `prev` in it.
                            if parse_ids_chars(suffix) is Some {
                                let rest = parse_ids_chars(suffix)->Some_0;
                                assert(1 <= js <= suffix.len());
                                assert(!(suffix[0] == '0' && js > 1));
                                assert(suffix.take(js) =~= s@.subrange(pos as int, j_abs));
                                if s@[pos as int] == '0' {
                                    assert(js == 1);
                                    assert(next == j_abs);
                                }
                                assert(num_val(suffix.take(js)) == val as nat);
                                assert(rest[0] == id);
                                let full = ids@ + rest;
                                assert(parse_ids_chars(s@) == Some(full));
                                let li = ids@.len() - 1;
                                assert(full[li] == prev);
                                assert(full[li + 1] == id);
                                assert(!sorted_ids(full));
                            }
                        }
                        return None;
                    }
                }
                let ghost old_ids = ids@;
                ids.push(id);
                proof {
                    assert(sorted_ids(ids@)) by {
                        assert forall|a: int, b: int|
                            0 <= a < b < ids@.len() implies #[trigger] ids@[a]
                            < #[trigger] ids@[b] by {
                            if b == ids@.len() - 1 {
                                if old_ids.len() >= 1 {
                                    assert(ids@[a] == old_ids[a]);
                                    let li = old_ids.len() - 1;
                                    if a < li {
                                        assert(old_ids[a] < old_ids[li]);
                                    }
                                }
                            } else {
                                assert(ids@[a] == old_ids[a] && ids@[b] == old_ids[b]);
                            }
                        }
                    }
                }
                if next == n {
                    proof {
                        // The suffix is a single member: the parse completes.
                        assert(js == suffix.len()) by {
                            assert(next == j_abs);
                        }
                        assert(!(suffix[0] == '0' && js > 1));
                        assert(suffix.take(js) =~= s@.subrange(pos as int, next as int));
                        assert(num_val(suffix.take(js)) == val as nat);
                        assert(parse_ids_chars(suffix) == Some(seq![id]));
                        assert(parse_ids_chars(s@) == Some(old_ids + seq![id]));
                        assert(old_ids + seq![id] =~= ids@);
                        lemma_parse_sound(s@);
                    }
                    let t = IdSet::from_sorted(ids);
                    proof {
                        t.lemma_view_is_seq();
                    }
                    return Some(t);
                }
                // Between members the canonical encoding holds ", ".
                let sep_ok = next + 1 < n && v[next] == ',' && v[next + 1] == ' ';
                proof {
                    assert(next < j_abs ==> is_digit(s@[next as int]));
                    assert(!is_digit(','));
                    if !sep_ok {
                        // Any other continuation makes the suffix
                        // unparseable, whether the run continued past a
                        // leading zero or the separator is missing.
                        if s@[pos as int] == '0' && js > 1 {
                            assert(parse_ids_chars(suffix) is None);
                        } else {
                            assert(next == j_abs);
                            assert(suffix.take(js) =~= s@.subrange(pos as int, j_abs));
                            assert(num_val(suffix.take(js)) == val as nat);
                            assert(js < suffix.len());
                            if js + 2 <= suffix.len() && suffix[js] == ',' && suffix[js + 1]
                                == ' ' {
                                assert(v@[next as int] == ',');
                                assert(v@[next as int + 1] == ' ');
                                assert(next + 1 < n);
                                assert(false);
                            }
                            assert(parse_ids_chars(suffix) is None);
                        }
                    }
                }
                if !sep_ok {
                    return None;
                }
                proof {
                    // The one-member step: the suffix parses exactly when the
                    // remainder past the separator does.
                    assert(s@[pos as int] == '0' ==> js == 1);
                    assert(next == j_abs);
                    assert(suffix.take(js) =~= s@.subrange(pos as int, j_abs));
                    assert(num_val(suffix.take(js)) == val as nat);
                    assert(suffix[js] == ',' && suffix[js + 1] == ' ');
                    assert(js + 2 <= suffix.len());
                    let tail = s@.skip(next + 2);
                    assert(suffix.skip(js + 2) =~= tail);
                    if parse_ids_chars(tail) is Some {
                        let rest2 = parse_ids_chars(tail)->Some_0;
                        assert(parse_ids_chars(suffix) == Some(seq![id] + rest2));
                        assert(old_ids + (seq![id] + rest2) =~= ids@ + rest2);
                        lemma_parse_sound(tail);
                    } else {
                        assert(parse_ids_chars(suffix) is None);
                    }
                }
                pos = next + 2;
            },
        }
    }
}

} // verus!
