//! Counting facts about Golomb rulers: a ruler with m marks uses m(m-1)/2
//! distinct positive distances, so its length is at least m(m-1)/2, and any
//! two minimal rulers for one mark count agree on their length.

use vstd::prelude::*;
use vstd::set_lib::lemma_int_range;
use vstd::set_lib::lemma_len_subset;

use crate::ruler::complete_ruler;
use crate::ruler::golomb;
use crate::ruler::is_dist_of;
use crate::ruler::lemma_golomb_prefix;
use crate::ruler::strictly_increasing;
use crate::tracker::lemma_dist_of_push;
use crate::tracker::lemma_golomb_push;

verus! {

/// The set of pairwise differences of `s`.
spec fn dist_set(s: Seq<usize>) -> Set<int> {
    Set::new(|d: int| is_dist_of(s, d))
}

/// The set of differences from the marks of `s` up to `p`.
spec fn tail_diffs(s: Seq<usize>, p: usize) -> Set<int> {
    Set::new(|d: int| exists|u: int| 0 <= u < s.len() && d == p - s[u])
}

/// The differences from `s` up to a value beyond all marks of `s` are as
/// many as the marks of `s`.
proof fn lemma_tail_diffs_card(s: Seq<usize>, p: usize)
    requires
        strictly_increasing(s),
        forall|u: int| 0 <= u < s.len() ==> s[u] < p,
    ensures
        tail_diffs(s, p).finite(),
        tail_diffs(s, p).len() == s.len(),
    decreases s.len(),
{
    if s.len() == 0 {
        assert(tail_diffs(s, p) =~= Set::<int>::empty());
    } else {
        let t = s.drop_last();
        assert forall|i: int, j: int| 0 <= i < j < t.len() implies t[i] < t[j] by {
            assert(t[i] == s[i] && t[j] == s[j]);
        }
        lemma_tail_diffs_card(t, p);
        let d0 = p - s.last();
        assert(!tail_diffs(t, p).contains(d0)) by {
            if tail_diffs(t, p).contains(d0) {
                let u = choose|u: int| 0 <= u < t.len() && d0 == p - t[u];
                assert(s[u] < s.last());
            }
        }
        assert(tail_diffs(s, p) =~= tail_diffs(t, p).insert(d0)) by {
            assert forall|d: int| tail_diffs(s, p).contains(d) implies tail_diffs(t, p).insert(
                d0,
            ).contains(d) by {
                let u = choose|u: int| 0 <= u < s.len() && d == p - s[u];
                if u < s.len() - 1 {
                    assert(t[u] == s[u]);
                    assert(tail_diffs(t, p).contains(d));
                }
            }
            assert forall|d: int| tail_diffs(t, p).insert(d0).contains(d) implies tail_diffs(
                s,
                p,
            ).contains(d) by {
                if d == d0 {
                    assert(0 <= s.len() - 1 < s.len() && d == p - s[s.len() - 1]);
                } else {
                    let u = choose|u: int| 0 <= u < t.len() && d == p - t[u];
                    assert(s[u] == t[u]);
                }
            }
        }
    }
}

/// A Golomb ruler with n strictly increasing marks has exactly n(n-1)/2
/// pairwise differences, stated without division: twice the count equals
/// n(n-1).
proof fn lemma_dist_set_card(s: Seq<usize>)
    requires
        strictly_increasing(s),
        golomb(s),
    ensures
        dist_set(s).finite(),
        2 * (dist_set(s).len() as int) == (s.len() as int) * (s.len() as int - 1),
    decreases s.len(),
{
    if s.len() <= 1 {
        assert forall|d: int| !dist_set(s).contains(d) by {
            if is_dist_of(s, d) {
                let (i, j) = choose|i: int, j: int| 0 <= i < j < s.len() && d == s[j] - s[i];
            }
        }
        assert(dist_set(s) =~= Set::<int>::empty());
        assert(dist_set(s).len() == 0);
        assert(2 * (dist_set(s).len() as int) == (s.len() as int) * (s.len() as int - 1))
            by (nonlinear_arith)
            requires
                dist_set(s).len() == 0,
                s.len() <= 1,
        {}
    } else {
        let t = s.drop_last();
        let p = s.last();
        assert(t.push(p) =~= s);
        assert(t.is_prefix_of(s)) by {
            assert(t =~= s.take(t.len() as int));
        }
        lemma_golomb_prefix(t, s);
        assert forall|i: int, j: int| 0 <= i < j < t.len() implies t[i] < t[j] by {
            assert(t[i] == s[i] && t[j] == s[j]);
        }
        assert forall|u: int| 0 <= u < t.len() implies t[u] < p by {
            assert(t[u] == s[u] && s[u] < s[s.len() - 1]);
        }
        lemma_dist_set_card(t);
        lemma_tail_diffs_card(t, p);
        lemma_golomb_push(t, p);
        assert(golomb(t.push(p)));
        assert(dist_set(t).disjoint(tail_diffs(t, p))) by {
            assert forall|d: int| !(dist_set(t).contains(d) && tail_diffs(t, p).contains(
                d,
            )) by {
                if dist_set(t).contains(d) && tail_diffs(t, p).contains(d) {
                    let u = choose|u: int| 0 <= u < t.len() && d == p - t[u];
                    assert(is_dist_of(t, p - t[u]));
                }
            }
        }
        assert(dist_set(s) =~= dist_set(t).union(tail_diffs(t, p))) by {
            assert forall|d: int| dist_set(s).contains(d) <==> dist_set(t).union(
                tail_diffs(t, p),
            ).contains(d) by {
                lemma_dist_of_push(t, p, d);
            }
        }
        vstd::set_lib::lemma_set_disjoint_lens(dist_set(t), tail_diffs(t, p));
        assert(dist_set(s).len() == dist_set(t).len() + tail_diffs(t, p).len());
        assert(2 * (dist_set(s).len() as int) == (s.len() as int) * (s.len() as int - 1)) by (nonlinear_arith)
            requires
                dist_set(s).len() == dist_set(t).len() + tail_diffs(t, p).len(),
                2 * (dist_set(t).len() as int) == (t.len() as int) * (t.len() as int - 1),
                tail_diffs(t, p).len() == t.len(),
                t.len() == s.len() - 1,
                s.len() >= 2,
        {}
    }
}

/// Every pairwise difference of a complete ruler lies between 1 and its
/// length.
proof fn lemma_dist_set_in_range(e: Seq<usize>)
    requires
        strictly_increasing(e),
        e.len() >= 1,
    ensures
        dist_set(e).subset_of(vstd::set_lib::set_int_range(1, e.last() + 1)),
{
    assert forall|d: int| dist_set(e).contains(d) implies 1 <= d < e.last() + 1 by {
        let (i, j) = choose|i: int, j: int| 0 <= i < j < e.len() && d == e[j] - e[i];
        assert(e[i] < e[j]);
        if j < e.len() - 1 {
            assert(e[j] < e[e.len() - 1]);
        }
        assert(e[j] <= e.last());
        assert(e[i] >= e[0]);
        if 0 < i {
            assert(e[0] < e[i]);
        }
    }
}

/// A complete Golomb ruler with m marks is at least m(m-1)/2 long: its
/// m(m-1)/2 pairwise differences are distinct positive integers, and each is
/// at most the ruler's length.
pub proof fn lemma_min_length(e: Seq<usize>, m: nat)
    requires
        complete_ruler(e, m),
    ensures
        2 * (e.last() as int) >= m * (m - 1),
        e.last() >= m * (m - 1) / 2,
{
    lemma_dist_set_card(e);
    lemma_dist_set_in_range(e);
    lemma_int_range(1, e.last() + 1);
    lemma_len_subset(dist_set(e), vstd::set_lib::set_int_range(1, e.last() + 1));
    assert(dist_set(e).len() <= e.last());
    assert(2 * (e.last() as int) >= m * (m - 1));
    assert(e.last() >= m * (m - 1) / 2);
}

/// Any two complete rulers of minimal length for one mark count agree on
/// their length: a successful minimal search reports a length that is a
/// function of the mark count alone, whatever order candidates were tried in
/// and however the work was divided.
pub proof fn lemma_minimal_length_unique(e1: Seq<usize>, e2: Seq<usize>, m: nat)
    requires
        complete_ruler(e1, m),
        complete_ruler(e2, m),
        forall|e: Seq<usize>| complete_ruler(e, m) ==> e.last() >= e1.last(),
        forall|e: Seq<usize>| complete_ruler(e, m) ==> e.last() >= e2.last(),
    ensures
        e1.last() == e2.last(),
{
    assert(e2.last() >= e1.last());
    assert(e1.last() >= e2.last());
}

} // verus!

