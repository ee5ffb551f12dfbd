//! Sets of principal ids, and the toggle that flips membership.
//!
//! `following`, `followers`, and `upvoted_by` are all set-valued relations
//! over principal ids.  The store keeps them as delimited strings; the
//! library keeps them as an `IdSet` — a strictly increasing vector of
//! non-negative ids, viewed as a mathematical `Set<i64>` — so that every
//! mutation goes through `toggle_membership` and is provably duplicate-free.

use vstd::prelude::*;

verus! {

broadcast use vstd::seq_lib::group_seq_lib_default;

/// A duplicate-free set of principal ids.
///
/// Members are kept strictly increasing, so a set has exactly one in-memory
/// shape and exactly one string encoding.
#[derive(Clone)]
pub struct IdSet {
    ids: Vec<i64>,
}

impl View for IdSet {
    type V = Set<i64>;

    closed spec fn view(&self) -> Set<i64> {
        self.ids@.to_set()
    }
}

/// A strictly increasing sequence of non-negative ids: the canonical member
/// order of a well-formed `IdSet`.
pub open spec fn sorted_ids(ids: Seq<i64>) -> bool {
    &&& forall|i: int| 0 <= i < ids.len() ==> #[trigger] ids[i] >= 0
    &&& forall|i: int, j: int| 0 <= i < j < ids.len() ==> #[trigger] ids[i] < #[trigger] ids[j]
}

impl IdSet {
    /// The members in their canonical (strictly increasing) order.
    pub closed spec fn seq(&self) -> Seq<i64> {
        self.ids@
    }

    /// Well-formed: members strictly increasing, hence duplicate-free, and
    /// every member a store-assigned (non-negative) id.
    pub open spec fn wf(&self) -> bool {
        sorted_ids(self.seq())
    }

    /// The view is the member sequence seen as a set: a member of one is a
    /// member of the other.
    pub proof fn lemma_view_is_seq(&self)
        ensures
            self@ == self.seq().to_set(),
            forall|x: i64| self@.contains(x) <==> self.seq().contains(x),
    {
    }

    /// A well-formed set has as many members as its view has elements.
    pub proof fn lemma_card(&self)
        requires
            self.wf(),
        ensures
            self@.len() == self.seq().len(),
            self@.finite(),
    {
        self.lemma_sorted_no_duplicates();
        self.ids@.unique_seq_to_set();
    }

    proof fn lemma_sorted_no_duplicates(&self)
        requires
            self.wf(),
        ensures
            self.ids@.no_duplicates(),
    {
    }

    /// The empty set.
    pub fn new() -> (s: IdSet)
        ensures
            s.wf(),
            s@ == Set::<i64>::empty(),
            s.seq() == Seq::<i64>::empty(),
    {
        let s = IdSet { ids: Vec::new() };
        proof {
            assert(s@ =~= Set::<i64>::empty());
        }
        s
    }

    /// How many members the set has.
    pub fn len(&self) -> (n: usize)
        requires
            self.wf(),
        ensures
            n == self@.len(),
    {
        proof {
            self.lemma_card();
        }
        self.ids.len()
    }

    /// Whether `x` is a member.
    pub fn contains(&self, x: i64) -> (r: bool)
        ensures
            r == self@.contains(x),
    {
        let n = self.ids.len();
        let mut i: usize = 0;
        while i < n
            invariant
                i <= n,
                n == self.ids@.len(),
                forall|k: int| 0 <= k < i ==> #[trigger] self.ids@[k] != x,
            decreases n - i,
        {
            if self.ids[i] == x {
                proof {
                    assert(self.ids@.contains(x));
                }
                return true;
            }
            i = i + 1;
        }
        proof {
            assert(!self.ids@.contains(x));
        }
        false
    }

    /// Wraps a member vector that is already in canonical order.
    pub(crate) fn from_sorted(ids: Vec<i64>) -> (s: IdSet)
        requires
            sorted_ids(ids@),
        ensures
            s.wf(),
            s.seq() == ids@,
    {
        IdSet { ids }
    }

    /// The member at position `i` of the canonical order.
    pub fn member_at(&self, i: usize) -> (x: i64)
        requires
            i < self.seq().len(),
        ensures
            x == self.seq()[i as int],
    {
        self.ids[i]
    }
}

/// Flips membership of `member` in `set` and reports the resulting state:
/// if `member` was absent it is inserted and `was_added` is true, otherwise
/// it is removed and `was_added` is false.  The toggle is its own inverse.
pub fn toggle_membership(set: IdSet, member: i64) -> (r: (IdSet, bool))
    requires
        set.wf(),
        member >= 0,
    ensures
        r.1 == !set@.contains(member),
        r.0.wf(),
        r.0@ == if r.1 {
            set@.insert(member)
        } else {
            set@.remove(member)
        },
        r.0@.len() == if r.1 {
            set@.len() as int + 1
        } else {
            set@.len() as int - 1
        },
{
    let ghost old_seq = set.ids@;
    proof {
        set.lemma_card();
    }
    let mut ids = set.ids;
    let n = ids.len();
    // Find the insertion point: the first position whose member is >= `member`.
    let mut i: usize = 0;
    while i < n && ids[i] < member
        invariant
            i <= n,
            n == ids@.len(),
            ids@ == old_seq,
            forall|k: int| 0 <= k < i ==> #[trigger] ids@[k] < member,
        decreases n - i,
    {
        i = i + 1;
    }
    proof {
        assert(sorted_ids(old_seq));
    }
    if i < n && ids[i] == member {
        // Present: remove it.
        ids.remove(i);
        let out = IdSet { ids };
        proof {
            assert(out.ids@ =~= old_seq.subrange(0, i as int) + old_seq.subrange(
                i + 1,
                old_seq.len() as int,
            ));
            assert(old_seq.contains(member));
            assert(set@.contains(member));
            assert forall|k: int| 0 <= k < out.ids@.len() implies #[trigger] out.ids@[k]
                != member by {
                if k < i {
                    assert(old_seq[k] < member);
                } else {
                    assert(out.ids@[k] == old_seq[k + 1]);
                    assert(old_seq[i as int] < old_seq[k + 1]);
                }
            }
            assert(out@ =~= set@.remove(member)) by {
                assert forall|y: i64| out@.contains(y) implies set@.remove(member).contains(y) by {
                    let k = choose|k: int| 0 <= k < out.ids@.len() && out.ids@[k] == y;
                    if k < i {
                        assert(old_seq[k] == y);
                    } else {
                        assert(old_seq[k + 1] == y);
                    }
                    assert(old_seq.contains(y));
                }
                assert forall|y: i64| set@.remove(member).contains(y) implies out@.contains(y) by {
                    let k = choose|k: int| 0 <= k < old_seq.len() && old_seq[k] == y;
                    if k < i {
                        assert(out.ids@[k] == y);
                    } else {
                        assert(k != i);
                        assert(out.ids@[k - 1] == y);
                    }
                    assert(out.ids@.contains(y));
                }
            }
            assert(out.wf()) by {
                assert forall|a: int, b: int|
                    0 <= a < b < out.ids@.len() implies #[trigger] out.ids@[a]
                    < #[trigger] out.ids@[b] by {
                    let a2 = if a < i { a } else { a + 1 };
                    let b2 = if b < i { b } else { b + 1 };
                    assert(out.ids@[a] == old_seq[a2]);
                    assert(out.ids@[b] == old_seq[b2]);
                }
            }
            out.lemma_card();
        }
        (out, false)
    } else {
        // Absent: insert it at the insertion point, keeping the order.
        proof {
            assert forall|k: int| 0 <= k < old_seq.len() implies #[trigger] old_seq[k]
                != member by {
                if k >= i {
                    if i < n {
                        assert(old_seq[i as int] != member);
                        if k > i {
                            assert(old_seq[i as int] < old_seq[k]);
                            assert(old_seq[i as int] >= member);
                        }
                    }
                }
            }
            assert(!old_seq.contains(member));
            assert(!set@.contains(member));
        }
        ids.insert(i, member);
        let out = IdSet { ids };
        proof {
            assert(out.ids@ =~= old_seq.subrange(0, i as int) + seq![member] + old_seq.subrange(
                i as int,
                old_seq.len() as int,
            ));
            assert(out@ =~= set@.insert(member)) by {
                assert(out.ids@.contains(member)) by {
                    assert(out.ids@[i as int] == member);
                }
                assert forall|y: i64| out@.contains(y) && y != member implies set@.contains(y) by {
                    let k = choose|k: int| 0 <= k < out.ids@.len() && out.ids@[k] == y;
                    if k < i {
                        assert(old_seq[k] == y);
                    } else {
                        assert(k != i);
                        assert(old_seq[k - 1] == y);
                    }
                    assert(old_seq.contains(y));
                }
                assert forall|y: i64| set@.contains(y) implies out@.contains(y) by {
                    let k = choose|k: int| 0 <= k < old_seq.len() && old_seq[k] == y;
                    if k < i {
                        assert(out.ids@[k] == y);
                    } else {
                        assert(out.ids@[k + 1] == y);
                    }
                    assert(out.ids@.contains(y));
                }
            }
            assert(out.wf()) by {
                assert forall|a: int, b: int|
                    0 <= a < b < out.ids@.len() implies #[trigger] out.ids@[a]
                    < #[trigger] out.ids@[b] by {
                    assert(forall|k: int| 0 <= k < i ==> #[trigger] old_seq[k] < member);
                    assert(forall|k: int|
                        i <= k < old_seq.len() ==> member < #[trigger] old_seq[k]);
                }
            }
            out.lemma_card();
        }
        (out, true)
    }
}

/// Toggle idempotence: toggling the same member twice returns the original
/// set of members, and a single toggle flips membership deterministically.
pub proof fn lemma_toggle_twice(s: Set<i64>, member: i64)
    ensures
        s.contains(member) ==> s.remove(member).insert(member) == s,
        !s.contains(member) ==> s.insert(member).remove(member) == s,
{
    if s.contains(member) {
        assert(s.remove(member).insert(member) =~= s);
    } else {
        assert(s.insert(member).remove(member) =~= s);
    }
}

} // verus!
