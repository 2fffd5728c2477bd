//! The leaderboard query.
//!
//! The top-K accounts by star balance are computed on demand by
//! sorting a snapshot of the star relation. The source leaves the
//! order of equally-starred accounts open; to make the result
//! reproducible this engine fixes the tie-break: equal star counts are
//! ordered by ascending account identifier.

use vstd::prelude::*;

use crate::assoc::distinct_keys;

verus! {

/// Entry `a` may stand at or before entry `b` on the leaderboard: more
/// stars first, equal star counts by ascending account identifier.
/// An entry pairs an account with its star count.
pub open spec fn ranks_before(a: (u64, u64), b: (u64, u64)) -> bool {
    a.1 > b.1 || (a.1 == b.1 && a.0 <= b.0)
}

/// Sorted for the leaderboard: every entry ranks at or before every
/// later one.
pub open spec fn rank_sorted(s: Seq<(u64, u64)>) -> bool {
    forall|i: int, j: int| 0 <= i < j < s.len() ==> ranks_before(s[i], s[j])
}

/// Inserts `e` at its rank position, keeping the vector sorted.
fn insert_by_rank(out: &mut Vec<(u64, u64)>, e: (u64, u64))
    requires
        rank_sorted(old(out)@),
    ensures
        rank_sorted(final(out)@),
        exists|p: int|
            0 <= p <= old(out)@.len() && final(out)@ == #[trigger] old(out)@.insert(p, e),
{
    let n = out.len();
    let mut p: usize = 0;
    while p < n && (out[p].1 > e.1 || (out[p].1 == e.1 && out[p].0 <= e.0))
        invariant
            n == out@.len(),
            p <= n,
            rank_sorted(out@),
            forall|j: int| 0 <= j < p ==> ranks_before(out@[j], e),
        decreases n - p,
    {
        proof {
            assert(ranks_before(out@[p as int], e));
        }
        p += 1;
    }
    proof {
        let s = out@;
        s.insert_ensures(p as int, e);
        let t = s.insert(p as int, e);
        assert forall|i: int, j: int| 0 <= i < j < t.len() implies ranks_before(t[i], t[j]) by {
            if j < p {
                assert(t[i] == s[i] && t[j] == s[j]);
            } else if j == p {
                assert(t[i] == s[i] && t[j] == e);
            } else if i < p {
                assert(t[i] == s[i] && t[j] == s[j - 1]);
            } else if i == p {
                assert(t[i] == e && t[j] == s[j - 1]);
                if p < s.len() {
                    assert(ranks_before(e, s[p as int]));
                    if j - 1 > p {
                        assert(ranks_before(s[p as int], s[j - 1]));
                    }
                }
            } else {
                assert(t[i] == s[i - 1] && t[j] == s[j - 1]);
            }
        }
    }
    out.insert(p, e);
}

/// Sorts the star entries for the leaderboard: the same entries, each
/// exactly once, in rank order.
pub(crate) fn rank_sort(entries: &Vec<(u64, u64)>) -> (out: Vec<(u64, u64)>)
    requires
        distinct_keys(entries@),
    ensures
        out@.len() == entries@.len(),
        rank_sorted(out@),
        distinct_keys(out@),
        forall|k: int| 0 <= k < out@.len() ==> entries@.contains(#[trigger] out@[k]),
        forall|j: int| 0 <= j < entries@.len() ==> out@.contains(#[trigger] entries@[j]),
{
    let n = entries.len();
    let mut out: Vec<(u64, u64)> = Vec::new();
    let mut i: usize = 0;
    while i < n
        invariant
            n == entries@.len(),
            distinct_keys(entries@),
            i <= n,
            out@.len() == i,
            rank_sorted(out@),
            distinct_keys(out@),
            forall|k: int|
                0 <= k < out@.len() ==> exists|j: int|
                    0 <= j < i && #[trigger] out@[k] == entries@[j],
            forall|j: int| 0 <= j < i ==> out@.contains(#[trigger] entries@[j]),
        decreases n - i,
    {
        let e = entries[i];
        let ghost prev = out@;
        proof {
            assert forall|k: int| 0 <= k < prev.len() implies prev[k].0 != e.0 by {
                let j = choose|j: int| 0 <= j < i && prev[k] == entries@[j];
                assert(entries@[j].0 != entries@[i as int].0);
            }
        }
        insert_by_rank(&mut out, e);
        proof {
            let p = choose|p: int|
                0 <= p <= prev.len() && out@ == #[trigger] prev.insert(p, e);
            prev.insert_ensures(p, e);
            assert forall|k1: int, k2: int| 0 <= k1 < k2 < out@.len() implies out@[k1].0
                != out@[k2].0 by {
                if k2 < p {
                    assert(out@[k1] == prev[k1] && out@[k2] == prev[k2]);
                } else if k2 == p {
                    assert(out@[k1] == prev[k1] && out@[k2] == e);
                } else if k1 < p {
                    assert(out@[k1] == prev[k1] && out@[k2] == prev[k2 - 1]);
                } else if k1 == p {
                    assert(out@[k1] == e && out@[k2] == prev[k2 - 1]);
                } else {
                    assert(out@[k1] == prev[k1 - 1] && out@[k2] == prev[k2 - 1]);
                }
            }
            assert forall|k: int| 0 <= k < out@.len() implies exists|j: int|
                0 <= j < i + 1 && #[trigger] out@[k] == entries@[j] by {
                if k < p {
                    let j = choose|j: int| 0 <= j < i && prev[k] == entries@[j];
                    assert(out@[k] == entries@[j]);
                } else if k == p {
                    assert(out@[k] == entries@[i as int]);
                } else {
                    let j = choose|j: int| 0 <= j < i && prev[k - 1] == entries@[j];
                    assert(out@[k] == entries@[j]);
                }
            }
            assert forall|j: int| 0 <= j < i + 1 implies out@.contains(
                #[trigger] entries@[j],
            ) by {
                if j < i {
                    let k = choose|k: int| 0 <= k < prev.len() && prev[k] == entries@[j];
                    if k < p {
                        assert(out@[k] == entries@[j]);
                    } else {
                        assert(out@[k + 1] == entries@[j]);
                    }
                } else {
                    assert(out@[p] == entries@[j]);
                }
            }
        }
        i += 1;
    }
    out
}

} // verus!
