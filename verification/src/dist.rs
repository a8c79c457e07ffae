//! The distance model: what a well-formed distance matrix is, what a cyclic
//! tour weighs under it, and the reversal-invariance of that weight.

use vstd::prelude::*;
use crate::{MAX_DIM, MAX_EDGE};

verus! {

/// The abstract value of a distance matrix held as a vector of rows.
pub open spec fn mat_view(m: Vec<Vec<u64>>) -> Seq<Seq<u64>> {
    Seq::new(m@.len(), |i: int| m@[i]@)
}

/// Bridges the row-by-row value of a matrix held as `Vec<Vec<u64>>` to its
/// abstract value, so that reasoning about an indexed entry reaches
/// [`mat_view`].
pub broadcast proof fn lemma_mat_view_entry(m: Vec<Vec<u64>>, i: int)
    requires
        0 <= i < m@.len(),
    ensures
        (#[trigger] m@[i])@ == mat_view(m)[i],
{
}

/// A well-formed distance matrix over `n` cities: square, entries bounded by
/// `MAX_EDGE`, symmetric, zero on the diagonal, and `n` small enough that a
/// whole tour length fits comfortably in `u64`.
pub open spec fn matrix_wf(m: Seq<Seq<u64>>, n: nat) -> bool {
    &&& n <= MAX_DIM as nat
    &&& m.len() == n
    &&& forall|i: int| 0 <= i < n ==> (#[trigger] m[i]).len() == n
    &&& forall|i: int, j: int| 0 <= i < n && 0 <= j < n ==> (#[trigger] m[i][j]) <= MAX_EDGE
    &&& forall|i: int, j: int| 0 <= i < n && 0 <= j < n ==> (#[trigger] m[i][j]) == m[j][i]
    &&& forall|i: int| 0 <= i < n ==> (#[trigger] m[i][i]) == 0
}

/// Every entry of `s` is a city index below `n`.
pub open spec fn in_range(s: Seq<usize>, n: nat) -> bool {
    forall|i: int| 0 <= i < s.len() ==> (#[trigger] s[i]) < n
}

/// The weight of the open path along `s` from position `lo` to position
/// `hi`: the sum of the edges between consecutive entries.
pub open spec fn path_sum(m: Seq<Seq<u64>>, s: Seq<usize>, lo: int, hi: int) -> int
    decreases hi - lo,
{
    if lo >= hi {
        0
    } else {
        path_sum(m, s, lo, hi - 1) + m[s[hi - 1] as int][s[hi] as int]
    }
}

/// The cyclic weight of tour `s`: consecutive edges plus the wrap-around
/// edge from the last city back to the first.  Tours shorter than two cities
/// weigh nothing.
pub open spec fn tour_dist(m: Seq<Seq<u64>>, s: Seq<usize>) -> int {
    if s.len() < 2 {
        0
    } else {
        path_sum(m, s, 0, s.len() - 1) + m[s[s.len() - 1] as int][s[0] as int]
    }
}

/// A path splits at any midpoint.
pub proof fn lemma_path_sum_split(m: Seq<Seq<u64>>, s: Seq<usize>, lo: int, mid: int, hi: int)
    requires
        lo <= mid <= hi,
    ensures
        path_sum(m, s, lo, hi) == path_sum(m, s, lo, mid) + path_sum(m, s, mid, hi),
    decreases hi - mid,
{
    if mid < hi {
        lemma_path_sum_split(m, s, lo, mid, hi - 1);
    }
}

/// A path over a well-formed matrix weighs between `0` and
/// `(hi - lo) * MAX_EDGE`.
pub proof fn lemma_path_sum_bounds(m: Seq<Seq<u64>>, s: Seq<usize>, n: nat, lo: int, hi: int)
    requires
        matrix_wf(m, n),
        in_range(s, n),
        0 <= lo,
        hi < s.len(),
    ensures
        lo <= hi ==> 0 <= path_sum(m, s, lo, hi) <= (hi - lo) * (MAX_EDGE as int),
        lo > hi ==> path_sum(m, s, lo, hi) == 0,
    decreases hi - lo,
{
    if lo < hi {
        lemma_path_sum_bounds(m, s, n, lo, hi - 1);
        assert((hi - 1 - lo) * (MAX_EDGE as int) + MAX_EDGE as int == (hi - lo) * (MAX_EDGE as int))
            by (nonlinear_arith);
    }
}

/// A whole tour over a well-formed matrix weighs between `0` and
/// `n * MAX_EDGE`.
pub proof fn lemma_tour_dist_bounds(m: Seq<Seq<u64>>, s: Seq<usize>, n: nat)
    requires
        matrix_wf(m, n),
        in_range(s, n),
        s.len() <= n,
    ensures
        0 <= tour_dist(m, s) <= s.len() * (MAX_EDGE as int),
{
    if s.len() >= 2 {
        lemma_path_sum_bounds(m, s, n, 0, s.len() - 1);
        assert((s.len() - 1) * (MAX_EDGE as int) + MAX_EDGE as int
            == s.len() * (MAX_EDGE as int)) by (nonlinear_arith);
    } else {
        assert(s.len() * (MAX_EDGE as int) >= 0) by (nonlinear_arith);
    }
}

/// The prefix of the reversed tour weighs the same as the matching suffix of
/// the tour: edge by edge, the matrix's symmetry swallows the change of
/// direction.
proof fn lemma_path_sum_reverse(m: Seq<Seq<u64>>, s: Seq<usize>, n: nat, k: int)
    requires
        matrix_wf(m, n),
        in_range(s, n),
        s.len() >= 1,
        0 <= k <= s.len() - 1,
    ensures
        path_sum(m, s.reverse(), 0, k) == path_sum(m, s, s.len() - 1 - k, s.len() - 1),
    decreases k,
{
    let r = s.reverse();
    let len = s.len() as int;
    if k > 0 {
        reveal_with_fuel(path_sum, 2);
        lemma_path_sum_reverse(m, s, n, k - 1);
        assert(r[k - 1] == s[len - k]);
        assert(r[k] == s[len - 1 - k]);
        lemma_path_sum_split(m, s, len - 1 - k, len - k, len - 1);
        assert(path_sum(m, s, len - 1 - k, len - k)
            == m[s[len - 1 - k] as int][s[len - k] as int]);
        assert(m[s[len - k] as int][s[len - 1 - k] as int]
            == m[s[len - 1 - k] as int][s[len - k] as int]);
    }
}

/// Cyclic reversal invariance: a tour and its reversal weigh the same,
/// because each edge is walked in the opposite direction over a symmetric
/// matrix.
pub proof fn lemma_tour_dist_reverse(m: Seq<Seq<u64>>, s: Seq<usize>, n: nat)
    requires
        matrix_wf(m, n),
        in_range(s, n),
    ensures
        tour_dist(m, s.reverse()) == tour_dist(m, s),
{
    let r = s.reverse();
    let len = s.len() as int;
    if s.len() >= 2 {
        lemma_path_sum_reverse(m, s, n, len - 1);
        assert(r[len - 1] == s[0]);
        assert(r[0] == s[len - 1]);
        assert(m[s[0] as int][s[len - 1] as int] == m[s[len - 1] as int][s[0] as int]);
    }
}

} // verus!
