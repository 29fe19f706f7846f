//! The pruning oracle of the search: the set of pairwise differences already
//! used by the current partial ruler.

use vstd::prelude::*;

use crate::ruler::golomb;
use crate::ruler::is_dist_of;
use crate::ruler::lemma_golomb_prefix;
use crate::ruler::strictly_increasing;
use crate::ruler::copy_positions;

verus! {

/// The recorded differences are exactly the pairwise differences of `s`.
pub open spec fn tracks(ds: Seq<usize>, s: Seq<usize>) -> bool {
    forall|d: usize| #[trigger] ds.contains(d) <==> is_dist_of(s, d as int)
}

/// The pairwise differences of `s.push(p)` are those of `s` together with the
/// differences from the marks of `s` up to `p`.
pub proof fn lemma_dist_of_push(s: Seq<usize>, p: usize, d: int)
    ensures
        is_dist_of(s.push(p), d) <==> (is_dist_of(s, d) || exists|t: int|
            0 <= t < s.len() && d == p - s[t]),
{
    let e = s.push(p);
    let n = s.len() as int;
    if is_dist_of(e, d) {
        let (i, j) = choose|i: int, j: int| 0 <= i < j < e.len() && d == e[j] - e[i];
        if j < n {
            assert(e[i] == s[i] && e[j] == s[j]);
            assert(is_dist_of(s, d));
        } else {
            assert(e[i] == s[i] && e[j] == p);
            assert(0 <= i < n && d == p - s[i]);
        }
    }
    if is_dist_of(s, d) {
        let (i, j) = choose|i: int, j: int| 0 <= i < j < s.len() && d == s[j] - s[i];
        assert(e[i] == s[i] && e[j] == s[j]);
        assert(is_dist_of(e, d));
    }
    if exists|t: int| 0 <= t < s.len() && d == p - s[t] {
        let t = choose|t: int| 0 <= t < s.len() && d == p - s[t];
        assert(e[t] == s[t] && e[n] == p);
        assert(is_dist_of(e, d));
    }
}

/// Appending `p` beyond the last mark keeps the ruler Golomb exactly when no
/// difference down from `p` repeats an existing difference: differences among
/// the new ones alone cannot collide, as the marks strictly increase.
pub proof fn lemma_golomb_push(s: Seq<usize>, p: usize)
    requires
        strictly_increasing(s),
        golomb(s),
        forall|t: int| 0 <= t < s.len() ==> s[t] < p,
    ensures
        golomb(s.push(p)) <==> (forall|t: int| 0 <= t < s.len() ==> !is_dist_of(s, p - s[t])),
{
    let e = s.push(p);
    let n = s.len() as int;
    if forall|t: int| 0 <= t < n ==> !is_dist_of(s, p - s[t]) {
        assert forall|i: int, j: int, k: int, l: int|
            0 <= i < j < e.len() && 0 <= k < l < e.len() && !(i == k && j == l) implies e[j] - e[i]
            != e[l] - e[k] by {
            if j < n && l < n {
                assert(e[i] == s[i] && e[j] == s[j] && e[k] == s[k] && e[l] == s[l]);
            } else if j == n && l < n {
                assert(e[i] == s[i] && e[j] == p && e[k] == s[k] && e[l] == s[l]);
                if e[j] - e[i] == e[l] - e[k] {
                    assert(is_dist_of(s, p - s[i]));
                }
            } else if j < n && l == n {
                assert(e[i] == s[i] && e[j] == s[j] && e[k] == s[k] && e[l] == p);
                if e[j] - e[i] == e[l] - e[k] {
                    assert(is_dist_of(s, p - s[k]));
                }
            } else {
                assert(e[i] == s[i] && e[k] == s[k] && e[j] == p && e[l] == p);
                assert(i != k);
            }
        }
    }
    if golomb(e) {
        assert forall|t: int| 0 <= t < n implies !is_dist_of(s, p - s[t]) by {
            if is_dist_of(s, p - s[t]) {
                let (a, b) = choose|a: int, b: int| 0 <= a < b < s.len() && p - s[t] == s[b] - s[a];
                assert(e[a] == s[a] && e[b] == s[b] && e[t] == s[t] && e[n] == p);
                assert(e[n] - e[t] == e[b] - e[a]);
                assert(!(t == a && n == b));
                assert(false);
            }
        }
    }
}

/// Set of pairwise differences used by the marks placed so far.
#[derive(Debug)]
pub struct DistanceSet {
    distances: Vec<usize>,
}

impl View for DistanceSet {
    type V = Seq<usize>;

    closed spec fn view(&self) -> Seq<usize> {
        self.distances@
    }
}

impl DistanceSet {
    /// Creates an empty set of differences.
    pub fn new() -> (r: Self)
        ensures
            r@ == Seq::<usize>::empty(),
    {
        DistanceSet { distances: Vec::new() }
    }

    /// The number of differences recorded so far.
    pub fn len(&self) -> (r: usize)
        ensures
            r == self@.len(),
    {
        self.distances.len()
    }

    /// Whether the difference `d` has been recorded.
    pub fn contains(&self, d: usize) -> (r: bool)
        ensures
            r == self@.contains(d),
    {
        let mut k: usize = 0;
        while k < self.distances.len()
            invariant
                k <= self@.len(),
                forall|t: int| 0 <= t < k ==> self@[t] != d,
            decreases self@.len() - k,
        {
            if self.distances[k] == d {
                return true;
            }
            k = k + 1;
        }
        false
    }

    /// An independent copy, so that a failed candidate cannot pollute the set
    /// a sibling branch works on.
    pub fn duplicate(&self) -> (r: Self)
        ensures
            r@ == self@,
    {
        DistanceSet { distances: copy_positions(&self.distances) }
    }

    /// Records the difference from each placed mark up to `new_pos`. Fails
    /// when one of them is already recorded; the set is then unfit for reuse
    /// and must be discarded by the caller.
    #[verifier::rlimit(80)]
    pub fn add_distances(&mut self, positions: &Vec<usize>, new_pos: usize) -> (ok: bool)
        requires
            strictly_increasing(positions@),
            golomb(positions@),
            forall|t: int| 0 <= t < positions@.len() ==> positions@[t] < new_pos,
            tracks(old(self)@, positions@),
        ensures
            ok == golomb(positions@.push(new_pos)),
            ok ==> tracks(final(self)@, positions@.push(new_pos)),
    {
        let n = positions.len();
        let mut k: usize = 0;
        while k < n
            invariant
                strictly_increasing(positions@),
                golomb(positions@),
                n == positions@.len(),
                k <= n,
                forall|t: int| 0 <= t < n ==> positions@[t] < new_pos,
                forall|d: usize|
                    #[trigger] self@.contains(d) <==> (is_dist_of(positions@, d as int) || exists|t: int|
                        0 <= t < k && d == new_pos - positions@[t]),
                forall|t: int| 0 <= t < k ==> !is_dist_of(positions@, new_pos - positions@[t]),
            decreases n - k,
        {
            let d = new_pos - positions[k];
            if self.contains(d) {
                proof {
                    if exists|t: int| 0 <= t < k && d == new_pos - positions@[t] {
                        let t = choose|t: int| 0 <= t < k && d == new_pos - positions@[t];
                        assert(positions@[t] == positions@[k as int]);
                        assert(false);
                    }
                    assert(is_dist_of(positions@, new_pos - positions@[k as int]));
                    lemma_golomb_push(positions@, new_pos);
                    assert(!(forall|t: int|
                        0 <= t < positions@.len() ==> !is_dist_of(positions@, new_pos - positions@[t]))) by {
                        assert(0 <= k < positions@.len() && is_dist_of(positions@, new_pos - positions@[k as int]));
                    }
                    assert(!golomb(positions@.push(new_pos)));
                }
                return false;
            }
            let ghost pre = self@;
            self.distances.push(d);
            proof {
                assert forall|dd: usize| #[trigger]
                    self@.contains(dd) implies (is_dist_of(positions@, dd as int) || exists|t: int|
                    0 <= t < k + 1 && dd == new_pos - positions@[t]) by {
                    if dd == d {
                        assert(dd == new_pos - positions@[k as int]);
                    } else {
                        let u = choose|u: int| 0 <= u < self@.len() && self@[u] == dd;
                        assert(pre[u] == dd);
                        assert(pre.contains(dd));
                    }
                }
                assert forall|dd: usize|
                    (is_dist_of(positions@, dd as int) || exists|t: int|
                        0 <= t < k + 1 && dd == new_pos - positions@[t]) implies #[trigger] self@.contains(
                    dd,
                ) by {
                    if dd == d {
                        assert(self@[self@.len() - 1] == d);
                    } else {
                        assert(pre.contains(dd));
                        let u = choose|u: int| 0 <= u < pre.len() && pre[u] == dd;
                        assert(self@[u] == dd);
                    }
                }
            }
            k = k + 1;
        }
        proof {
            lemma_golomb_push(positions@, new_pos);
            assert forall|dd: usize| #[trigger]
                self@.contains(dd) <==> is_dist_of(positions@.push(new_pos), dd as int) by {
                lemma_dist_of_push(positions@, new_pos, dd as int);
            }
        }
        true
    }
}

/// Checks the Golomb condition of a strictly increasing position vector by
/// rebuilding its difference set mark by mark.
pub(crate) fn distinct_distances(v: &Vec<usize>) -> (r: bool)
    requires
        strictly_increasing(v@),
    ensures
        r == golomb(v@),
{
    let mut ds = DistanceSet::new();
    let mut prefix: Vec<usize> = Vec::new();
    let mut k: usize = 0;
    while k < v.len()
        invariant
            strictly_increasing(v@),
            k <= v@.len(),
            prefix@ == v@.take(k as int),
            golomb(prefix@),
            tracks(ds@, prefix@),
        decreases v@.len() - k,
    {
        proof {
            assert forall|i: int, j: int| 0 <= i < j < prefix@.len() implies prefix@[i]
                < prefix@[j] by {
                assert(prefix@[i] == v@[i] && prefix@[j] == v@[j]);
            }
            assert forall|t: int| 0 <= t < prefix@.len() implies prefix@[t] < v@[k as int] by {
                assert(prefix@[t] == v@[t]);
            }
        }
        let ok = ds.add_distances(&prefix, v[k]);
        if !ok {
            proof {
                assert(prefix@.push(v@[k as int]) =~= v@.take(k as int + 1));
                if golomb(v@) {
                    assert(v@.take(k as int + 1).is_prefix_of(v@));
                    lemma_golomb_prefix(v@.take(k as int + 1), v@);
                    assert(false);
                }
            }
            return false;
        }
        prefix.push(v[k]);
        k = k + 1;
        proof {
            assert(prefix@ =~= v@.take(k as int));
        }
    }
    proof {
        assert(v@.take(v@.len() as int) =~= v@);
    }
    true
}

} // verus!
