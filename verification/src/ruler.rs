//! The ruler under construction: an ordered sequence of marks, together with
//! the specification of what makes a sequence of marks a Golomb ruler.

use vstd::prelude::*;

verus! {

/// The marks strictly increase from left to right.
pub open spec fn strictly_increasing(s: Seq<usize>) -> bool {
    forall|i: int, j: int| 0 <= i < j < s.len() ==> s[i] < s[j]
}

/// `d` occurs as a difference between two marks of `s`.
pub open spec fn is_dist_of(s: Seq<usize>, d: int) -> bool {
    exists|i: int, j: int| 0 <= i < j < s.len() && d == s[j] - s[i]
}

/// All pairwise differences between marks of `s` are pairwise distinct.
pub open spec fn golomb(s: Seq<usize>) -> bool {
    forall|i: int, j: int, k: int, l: int|
        0 <= i < j < s.len() && 0 <= k < l < s.len() && !(i == k && j == l)
            ==> s[j] - s[i] != s[l] - s[k]
}

/// `e` is a finished ruler with `m` marks: it starts at 0, its marks strictly
/// increase, and no two pairs of marks are the same distance apart.
pub open spec fn complete_ruler(e: Seq<usize>, m: nat) -> bool {
    &&& e.len() == m
    &&& m >= 1
    &&& e[0] == 0
    &&& strictly_increasing(e)
    &&& golomb(e)
}

/// A duplicate distance in a prefix stays a duplicate in the whole sequence.
pub proof fn lemma_golomb_prefix(s: Seq<usize>, e: Seq<usize>)
    requires
        s.is_prefix_of(e),
        golomb(e),
    ensures
        golomb(s),
{
    assert forall|i: int, j: int, k: int, l: int|
        0 <= i < j < s.len() && 0 <= k < l < s.len() && !(i == k && j == l)
            implies s[j] - s[i] != s[l] - s[k] by {
        assert(s[i] == e[i] && s[j] == e[j] && s[k] == e[k] && s[l] == e[l]);
    }
}

/// Strictly increasing marks are at least one unit apart per step.
pub proof fn lemma_increasing_gap(s: Seq<usize>, i: int, j: int)
    requires
        strictly_increasing(s),
        0 <= i <= j < s.len(),
    ensures
        s[j] - s[i] >= j - i,
    decreases j - i,
{
    if i < j {
        lemma_increasing_gap(s, i, j - 1);
    }
}

/// A ruler with a specified target mark count and the marks placed so far.
#[derive(Debug, Clone)]
pub struct GolombRuler {
    /// Number of marks the finished ruler is to have.
    pub marks: usize,
    /// Positions of the marks placed so far.
    pub positions: Vec<usize>,
}

impl View for GolombRuler {
    type V = Seq<usize>;

    closed spec fn view(&self) -> Seq<usize> {
        self.positions@
    }
}

impl GolombRuler {
    /// Creates a ruler directly from a sequence of positions.
    pub fn new(positions: Vec<usize>, marks: usize) -> (r: Self)
        ensures
            r.marks == marks,
            r@ == positions@,
    {
        GolombRuler { marks, positions }
    }

    /// Creates a ruler with only the fixed first mark at position 0.
    pub fn empty(marks: usize) -> (r: Self)
        ensures
            r.marks == marks,
            r@ == seq![0usize],
    {
        let mut positions: Vec<usize> = Vec::new();
        positions.push(0);
        proof {
            assert(positions@ =~= seq![0usize]);
        }
        GolombRuler { marks, positions }
    }

    /// The positions of the marks placed so far, in ascending order.
    pub fn positions(&self) -> (r: &Vec<usize>)
        ensures
            r@ == self@,
    {
        &self.positions
    }

    /// The position of the last mark, or 0 when no mark is placed.
    pub fn length(&self) -> (r: usize)
        ensures
            r == (if self@.len() == 0 { 0usize } else { self@.last() }),
    {
        if self.positions.len() == 0 {
            0
        } else {
            self.positions[self.positions.len() - 1]
        }
    }

    /// The position of the mark with the given index, if it is placed.
    pub fn position(&self, mark: usize) -> (r: Option<usize>)
        ensures
            match r {
                Some(p) => mark < self@.len() && p == self@[mark as int],
                None => mark >= self@.len(),
            },
    {
        if mark < self.positions.len() {
            Some(self.positions[mark])
        } else {
            None
        }
    }

    /// Places a new mark beyond the current last mark.
    pub fn add_mark(&mut self, position: usize)
        requires
            old(self)@.len() < old(self).marks,
            old(self)@.len() > 0 ==> position > old(self)@.last(),
        ensures
            final(self).marks == old(self).marks,
            final(self)@ == old(self)@.push(position),
    {
        self.positions.push(position);
    }

    /// Removes the most recently placed mark, if any.
    pub fn remove_last_mark(&mut self)
        ensures
            final(self).marks == old(self).marks,
            final(self)@ == (if old(self)@.len() > 0 {
                old(self)@.drop_last()
            } else {
                old(self)@
            }),
    {
        if self.positions.len() > 0 {
            let _ = self.positions.pop();
        }
    }

    /// The number of marks placed so far.
    pub fn current_marks(&self) -> (r: usize)
        ensures
            r == self@.len(),
    {
        self.positions.len()
    }

    /// Full pairwise-distinctness check over the placed marks.
    pub fn is_valid(&self) -> (r: bool)
        requires
            strictly_increasing(self@),
        ensures
            r == golomb(self@),
    {
        crate::tracker::distinct_distances(&self.positions)
    }

    /// Whether appending `new_position` would keep all pairwise distances
    /// distinct; the placed marks are rechecked as well.
    pub fn is_valid_with(&self, new_position: usize) -> (r: bool)
        requires
            strictly_increasing(self@),
            self@.len() > 0 ==> new_position > self@.last(),
        ensures
            r == golomb(self@.push(new_position)),
    {
        let mut extended = copy_positions(&self.positions);
        extended.push(new_position);
        assert(strictly_increasing(extended@)) by {
            assert(forall|i: int| 0 <= i < self@.len() ==> extended@[i] == self@[i]);
        }
        crate::tracker::distinct_distances(&extended)
    }
}

/// Marks whose every adjacent pair increases increase throughout.
proof fn lemma_adjacent_increasing(s: Seq<usize>, i: int, j: int)
    requires
        forall|t: int| 0 < t < s.len() ==> s[t - 1] < #[trigger] s[t],
        0 <= i < j < s.len(),
    ensures
        s[i] < s[j],
    decreases j - i,
{
    if i + 1 < j {
        lemma_adjacent_increasing(s, i, j - 1);
    }
    assert(s[j - 1] < s[j]);
}

/// Checks that the positions strictly increase from left to right.
pub(crate) fn is_increasing(v: &Vec<usize>) -> (r: bool)
    ensures
        r == strictly_increasing(v@),
{
    let mut i: usize = 1;
    while i < v.len()
        invariant
            1 <= i,
            forall|t: int| 0 < t < i ==> v@[t - 1] < #[trigger] v@[t],
        decreases v@.len() - i,
    {
        if v[i - 1] >= v[i] {
            assert(!strictly_increasing(v@)) by {
                assert(v@[i as int - 1] >= v@[i as int]);
            }
            return false;
        }
        i = i + 1;
    }
    proof {
        assert forall|a: int, b: int| 0 <= a < b < v@.len() implies v@[a] < v@[b] by {
            lemma_adjacent_increasing(v@, a, b);
        }
    }
    true
}

/// Copies a position vector element by element.
pub(crate) fn copy_positions(v: &Vec<usize>) -> (r: Vec<usize>)
    ensures
        r@ == v@,
{
    let mut r: Vec<usize> = Vec::new();
    let mut i: usize = 0;
    while i < v.len()
        invariant
            i <= v.len(),
            r@ == v@.take(i as int),
        decreases v.len() - i,
    {
        r.push(v[i]);
        i = i + 1;
        proof {
            assert(r@ =~= v@.take(i as int));
        }
    }
    proof {
        assert(v@.take(v@.len() as int) =~= v@);
    }
    r
}

} // verus!
