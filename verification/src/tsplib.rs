//! The shared instance and tour representation: integer city coordinates,
//! the rounded Euclidean distance matrix, the `Route` type every engine
//! works on, and the contract all four engines solve under.

use vstd::prelude::*;
use crate::dist::{in_range, mat_view, matrix_wf, path_sum, tour_dist, lemma_path_sum_bounds,
    lemma_tour_dist_bounds};
use crate::ext::{coin, rand_index, shuffle};
use crate::perm::{lemma_multiset_perm, lemma_reverse_range_perm, lemma_seq_swap_is_perm,
    reverse_range, seq_swap, valid_perm};
use crate::{MAX_COORD, MAX_DIM, MAX_EDGE};

verus! {

broadcast use crate::dist::lemma_mat_view_entry;

/// A city is an integer 2-D coordinate, identified elsewhere by its index.
pub type City = (i64, i64);

/// Both coordinates of the city stay inside the distance model's bound.
pub open spec fn coord_ok(c: City) -> bool {
    &&& -(MAX_COORD as int) <= c.0 <= MAX_COORD as int
    &&& -(MAX_COORD as int) <= c.1 <= MAX_COORD as int
}

/// The squared Euclidean distance between two cities.
pub open spec fn sq_dist(a: City, b: City) -> int {
    (a.0 - b.0) * (a.0 - b.0) + (a.1 - b.1) * (a.1 - b.1)
}

/// `d` is the Euclidean distance between `a` and `b` rounded to the nearest
/// integer: `(d - 1/2)^2 <= sq_dist < (d + 1/2)^2`, written without
/// fractions.
pub open spec fn is_rounded_dist(a: City, b: City, d: u64) -> bool {
    &&& 4 * sq_dist(a, b) < (2 * (d as int) + 1) * (2 * (d as int) + 1)
    &&& d > 0 ==> (2 * (d as int) - 1) * (2 * (d as int) - 1) <= 4 * sq_dist(a, b)
}

/// The rounded distance is determined by the two cities; in particular the
/// matrix built from it is symmetric.
pub proof fn lemma_rounded_dist_unique(a: City, b: City, d1: u64, d2: u64)
    requires
        is_rounded_dist(a, b, d1),
        is_rounded_dist(b, a, d2),
    ensures
        d1 == d2,
{
    assert(sq_dist(a, b) == sq_dist(b, a)) by (nonlinear_arith);
    let v = sq_dist(a, b);
    if d1 < d2 {
        assert((2 * (d2 as int) - 1) * (2 * (d2 as int) - 1) <= 4 * v);
        assert(4 * v < (2 * (d1 as int) + 1) * (2 * (d1 as int) + 1));
        assert((2 * (d1 as int) + 1) * (2 * (d1 as int) + 1)
            <= (2 * (d2 as int) - 1) * (2 * (d2 as int) - 1)) by (nonlinear_arith)
            requires d1 < d2;
    }
    if d2 < d1 {
        assert((2 * (d1 as int) - 1) * (2 * (d1 as int) - 1) <= 4 * v);
        assert(4 * v < (2 * (d2 as int) + 1) * (2 * (d2 as int) + 1));
        assert((2 * (d2 as int) + 1) * (2 * (d2 as int) + 1)
            <= (2 * (d1 as int) - 1) * (2 * (d1 as int) - 1)) by (nonlinear_arith)
            requires d2 < d1;
    }
}

/// Integer square root by binary search: the floor of `sqrt(v)`.
fn isqrt(v: u64) -> (r: u64)
    requires
        v <= 8_000_000_000_000u64,
    ensures
        (r as int) * (r as int) <= v as int,
        ((r as int) + 1) * ((r as int) + 1) > v as int,
        r <= 3_000_000,
{
    let mut lo: u64 = 0;
    let mut hi: u64 = 3_000_000;
    proof {
        assert((3_000_000int + 1) * (3_000_000int + 1) > 8_000_000_000_000int)
            by (nonlinear_arith);
    }
    while lo < hi
        invariant
            lo <= hi <= 3_000_000,
            (lo as int) * (lo as int) <= v as int,
            ((hi as int) + 1) * ((hi as int) + 1) > v as int,
        decreases hi - lo,
    {
        let mid = (lo + hi + 1) / 2;
        proof {
            assert((mid as int) * (mid as int) <= 3_000_000int * 3_000_000int)
                by (nonlinear_arith)
                requires mid <= 3_000_000;
        }
        if mid * mid <= v {
            lo = mid;
        } else {
            hi = mid - 1;
        }
    }
    lo
}

/// The Euclidean distance between two bounded cities, rounded to the nearest
/// integer — the edge weight of the distance model.
fn euclidean_distance(a: &City, b: &City) -> (d: u64)
    requires
        coord_ok(*a),
        coord_ok(*b),
    ensures
        is_rounded_dist(*a, *b, d),
        d <= MAX_EDGE,
{
    let dx = a.0 - b.0;
    let dy = a.1 - b.1;
    proof {
        assert(dx * dx <= 4_000_000_000_000int && dx * dx >= 0) by (nonlinear_arith)
            requires -2_000_000 <= dx <= 2_000_000;
        assert(dy * dy <= 4_000_000_000_000int && dy * dy >= 0) by (nonlinear_arith)
            requires -2_000_000 <= dy <= 2_000_000;
    }
    let v = (dx * dx + dy * dy) as u64;
    let r = isqrt(v);
    let four_v = 4 * v;
    let t = 2 * r + 1;
    proof {
        assert((t as int) * (t as int) <= 6_000_001int * 6_000_001int) by (nonlinear_arith)
            requires t <= 6_000_001;
    }
    if four_v >= t * t {
        proof {
            // rounding up: (2r + 1)^2 <= 4v and 4v < (2r + 3)^2
            assert(4 * (v as int) < (2 * ((r as int) + 1) + 1) * (2 * ((r as int) + 1) + 1))
                by (nonlinear_arith)
                requires (v as int) < ((r as int) + 1) * ((r as int) + 1);
            assert((r as int) + 1 <= MAX_EDGE as int) by (nonlinear_arith)
                requires
                    (2 * (r as int) + 1) * (2 * (r as int) + 1) <= 4 * (v as int),
                    v <= 8_000_000_000_000u64;
        }
        r + 1
    } else {
        proof {
            assert(r > 0 ==> (2 * (r as int) - 1) * (2 * (r as int) - 1) <= 4 * (v as int))
                by (nonlinear_arith)
                requires (r as int) * (r as int) <= v as int;
        }
        r
    }
}

/// A tour: a permutation of all city indices together with its cached cyclic
/// length under the instance's distance matrix.
pub struct Route {
    pub cities: Vec<usize>,
    pub distance: u64,
}

/// `r` is a well-formed tour over the `n`-city matrix `m`: a permutation
/// whose cached distance equals the cyclic tour length.
pub open spec fn route_ok(r: Route, m: Seq<Seq<u64>>, n: nat) -> bool {
    &&& valid_perm(r.cities@, n)
    &&& r.distance as int == tour_dist(m, r.cities@)
}

/// `t` is `s` with the entries at two positions exchanged.
pub open spec fn is_position_swap(t: Seq<usize>, s: Seq<usize>, n: nat) -> bool {
    exists|i: int, j: int| 0 <= i < n && 0 <= j < n && t == seq_swap(s, i, j)
}

/// `t` is `s` with one closed segment reversed.
pub open spec fn is_segment_reversal(t: Seq<usize>, s: Seq<usize>, n: nat) -> bool {
    exists|i: int, j: int| 0 <= i <= j < n && t == reverse_range(s, i, j)
}

impl Clone for Route {
    /// A clone carries the same order and the same cached distance.
    fn clone(&self) -> (r: Route)
        ensures
            r.cities@ == self.cities@,
            r.distance == self.distance,
    {
        Route { cities: copy_indices(&self.cities), distance: self.distance }
    }
}

/// An element-for-element copy of an index vector.
pub(crate) fn copy_indices(v: &Vec<usize>) -> (r: Vec<usize>)
    ensures
        r@ == v@,
{
    let mut r: Vec<usize> = Vec::new();
    let n = v.len();
    for i in 0..n
        invariant
            n == v@.len(),
            r@.len() == i,
            forall|k: int| 0 <= k < i ==> r@[k] == v@[k],
    {
        r.push(v[i]);
    }
    proof {
        assert(r@ =~= v@);
    }
    r
}

/// The identity tour `0, 1, .., n-1`.
pub(crate) fn identity_order(n: usize) -> (v: Vec<usize>)
    ensures
        valid_perm(v@, n as nat),
        forall|k: int| 0 <= k < n ==> v@[k] == k,
{
    let mut v: Vec<usize> = Vec::new();
    for i in 0..n
        invariant
            v@.len() == i,
            forall|k: int| 0 <= k < i ==> v@[k] == k,
    {
        v.push(i);
    }
    v
}

impl Route {
    /// Builds the tour that visits the cities in the given order, caching
    /// its cyclic length.
    pub fn new(order: Vec<usize>, m: &Vec<Vec<u64>>) -> (r: Route)
        requires
            matrix_wf(mat_view(*m), m@.len() as nat),
            valid_perm(order@, m@.len() as nat),
            m@.len() >= 2,
        ensures
            route_ok(r, mat_view(*m), m@.len() as nat),
            r.cities@ == order@,
    {
        let distance = Route::calculate_distance(&order, m);
        Route { cities: order, distance }
    }

    /// Builds a uniformly shuffled tour.
    pub fn new_random(m: &Vec<Vec<u64>>) -> (r: Route)
        requires
            matrix_wf(mat_view(*m), m@.len() as nat),
            m@.len() >= 2,
        ensures
            route_ok(r, mat_view(*m), m@.len() as nat),
    {
        let n = m.len();
        let mut order = identity_order(n);
        let ghost id = order@;
        shuffle(&mut order);
        proof {
            lemma_multiset_perm(id, order@, n as nat);
        }
        Route::new(order, m)
    }

    /// The cyclic length of `order`: the sum of the edges between
    /// consecutive cities plus the wrap-around edge from the last back to
    /// the first.
    pub fn calculate_distance(order: &Vec<usize>, m: &Vec<Vec<u64>>) -> (d: u64)
        requires
            matrix_wf(mat_view(*m), m@.len() as nat),
            in_range(order@, m@.len() as nat),
            2 <= order@.len() <= m@.len(),
        ensures
            d as int == tour_dist(mat_view(*m), order@),
    {
        let n = order.len();
        let ghost mv = mat_view(*m);
        let ghost nn = m@.len() as nat;
        let last = order[n - 1];
        let first = order[0];
        let mut total: u64 = m[last][first];
        for i in 1..n
            invariant
                n == order@.len(),
                2 <= n,
                matrix_wf(mv, nn),
                in_range(order@, nn),
                mv == mat_view(*m),
                nn == m@.len() as nat,
                n <= nn,
                total as int == mv[order@[n - 1] as int][order@[0] as int]
                    + path_sum(mv, order@, 0, i - 1),
                total as int <= (i as int) * (MAX_EDGE as int),
        {
            proof {
                lemma_path_sum_bounds(mv, order@, nn, 0, i as int);
                assert((i as int) * (MAX_EDGE as int) + (MAX_EDGE as int)
                    == (i as int + 1) * (MAX_EDGE as int)) by (nonlinear_arith);
                assert((i as int + 1) * (MAX_EDGE as int)
                    <= (MAX_DIM as int) * (MAX_EDGE as int)) by (nonlinear_arith)
                    requires i as int + 1 <= MAX_DIM as int;
            }
            let a = order[i - 1];
            let b = order[i];
            total = total + m[a][b];
        }
        total
    }

    /// The 2-opt move: the tour with the closed segment between the two
    /// given positions reversed, its length recomputed.
    pub fn two_opt_move(&self, i: usize, j: usize, m: &Vec<Vec<u64>>) -> (r: Route)
        requires
            matrix_wf(mat_view(*m), m@.len() as nat),
            route_ok(*self, mat_view(*m), m@.len() as nat),
            m@.len() >= 2,
            i < m@.len(),
            j < m@.len(),
        ensures
            route_ok(r, mat_view(*m), m@.len() as nat),
            r.cities@ == reverse_range(
                self.cities@,
                if i <= j { i as int } else { j as int },
                if i <= j { j as int } else { i as int },
            ),
    {
        let (lo, hi) = if i <= j { (i, j) } else { (j, i) };
        let ghost s = self.cities@;
        let ghost nn = m@.len() as nat;
        let mut cities = copy_indices(&self.cities);
        let mut l = lo;
        let mut h = hi;
        while l < h
            invariant
                valid_perm(s, nn),
                lo <= hi < nn,
                cities@.len() == s.len(),
                lo <= l,
                h <= hi,
                l + h == lo + hi,
                l <= h + 1,
                forall|k: int| 0 <= k < s.len() && !(lo <= k <= hi) ==> cities@[k] == s[k],
                forall|k: int| lo <= k < l ==> cities@[k] == s[hi - (k - lo)],
                forall|k: int| h < k <= hi ==> cities@[k] == s[hi - (k - lo)],
                forall|k: int| l <= k <= h ==> cities@[k] == s[k],
            decreases h + 1 - l,
        {
            let a = cities[l];
            let b = cities[h];
            cities[l] = b;
            cities[h] = a;
            proof {
                assert(hi - (l - lo) == h);
                assert(hi - (h - lo) == l);
            }
            l = l + 1;
            h = h - 1;
        }
        proof {
            assert(cities@ =~= reverse_range(s, lo as int, hi as int));
            lemma_reverse_range_perm(s, nn, lo as int, hi as int);
        }
        let distance = Route::calculate_distance(&cities, m);
        Route { cities, distance }
    }

    /// A neighbour tour with two uniformly chosen positions exchanged.
    fn swap_random_cities(&self, m: &Vec<Vec<u64>>) -> (r: Route)
        requires
            matrix_wf(mat_view(*m), m@.len() as nat),
            route_ok(*self, mat_view(*m), m@.len() as nat),
            m@.len() >= 2,
        ensures
            route_ok(r, mat_view(*m), m@.len() as nat),
            is_position_swap(r.cities@, self.cities@, m@.len() as nat),
    {
        let n = self.cities.len();
        let ghost nn = m@.len() as nat;
        let mut cities = copy_indices(&self.cities);
        let i = rand_index(n);
        let j = rand_index(n);
        let a = cities[i];
        let b = cities[j];
        cities[i] = b;
        cities[j] = a;
        proof {
            assert(cities@ == seq_swap(self.cities@, i as int, j as int));
            lemma_seq_swap_is_perm(self.cities@, nn, i as int, j as int);
        }
        let distance = Route::calculate_distance(&cities, m);
        Route { cities, distance }
    }

    /// A random neighbour: a position swap with probability
    /// `swap_share / SCALE`, otherwise a 2-opt reversal between two
    /// uniformly chosen positions.  Every outcome is the input tour changed
    /// by exactly one such move.
    pub fn random_move(&self, swap_share: u64, m: &Vec<Vec<u64>>) -> (r: Route)
        requires
            matrix_wf(mat_view(*m), m@.len() as nat),
            route_ok(*self, mat_view(*m), m@.len() as nat),
            m@.len() >= 2,
        ensures
            route_ok(r, mat_view(*m), m@.len() as nat),
            is_position_swap(r.cities@, self.cities@, m@.len() as nat)
                || is_segment_reversal(r.cities@, self.cities@, m@.len() as nat),
    {
        let ghost nn = m@.len() as nat;
        if coin(swap_share) {
            self.swap_random_cities(m)
        } else {
            let n = self.cities.len();
            let i = rand_index(n);
            let j = rand_index(n);
            let moved = self.two_opt_move(i, j, m);
            proof {
                let lo: int = if i <= j { i as int } else { j as int };
                let hi: int = if i <= j { j as int } else { i as int };
                assert(moved.cities@ == reverse_range(self.cities@, lo, hi));
                assert(is_segment_reversal(moved.cities@, self.cities@, nn));
            }
            moved
        }
    }
}

/// Step `k` of tour `s` is greedy: the city placed at position `k + 1` is
/// at least as close to the city at position `k` as every city that the
/// first `k + 1` positions have not visited.
pub open spec fn greedy_step(m: Seq<Seq<u64>>, s: Seq<usize>, k: int) -> bool {
    forall|c: usize| c < m.len() && !(#[trigger] s.take(k + 1).contains(c))
        ==> m[s[k] as int][s[k + 1] as int] <= m[s[k] as int][c as int]
}

/// The tour is a nearest-neighbour construction: every step is greedy.
pub open spec fn greedy_tour(m: Seq<Seq<u64>>, s: Seq<usize>) -> bool {
    forall|k: int| 0 <= k < s.len() - 1 ==> #[trigger] greedy_step(m, s, k)
}

/// Greedy nearest-neighbour construction, shared by the engines' seeding:
/// start at a uniformly drawn city and repeatedly append the closest city
/// not yet visited.  The result visits every city exactly once, each step
/// choosing a nearest unvisited city.
pub(crate) fn nearest_neighbor_order(m: &Vec<Vec<u64>>) -> (order: Vec<usize>)
    requires
        matrix_wf(mat_view(*m), m@.len() as nat),
        m@.len() >= 1,
    ensures
        valid_perm(order@, m@.len() as nat),
        greedy_tour(mat_view(*m), order@),
{
    let n = m.len();
    let ghost nn = m@.len() as nat;
    let start = rand_index(n);
    let mut unvisited: Vec<usize> = Vec::new();
    for c in 0..n
        invariant
            start < n,
            forall|k: int| 0 <= k < unvisited@.len() ==> (#[trigger] unvisited@[k]) < c,
            forall|k1: int, k2: int| 0 <= k1 < k2 < unvisited@.len()
                ==> unvisited@[k1] < unvisited@[k2],
            forall|k: int| 0 <= k < unvisited@.len() ==> (#[trigger] unvisited@[k]) != start,
            unvisited@.len() == (if start < c { c - 1 } else { c as int }),
            forall|c2: usize| c2 < c && c2 != start ==> unvisited@.contains(c2),
    {
        if c != start {
            let ghost before = unvisited@;
            unvisited.push(c);
            proof {
                assert forall|c2: usize| c2 < c + 1 && c2 != start
                    implies unvisited@.contains(c2) by {
                    if c2 == c {
                        assert(unvisited@[unvisited@.len() - 1] == c2);
                    } else {
                        assert(c2 < c);
                        assert(before.contains(c2));
                        let k = choose|k: int| 0 <= k < before.len() && before[k] == c2;
                        assert(unvisited@[k] == c2);
                    }
                }
            }
        }
    }
    let mut route: Vec<usize> = Vec::new();
    route.push(start);
    proof {
        assert forall|c2: usize| c2 < nn implies
            route@.contains(c2) || unvisited@.contains(c2) by {
            if c2 == start {
                assert(route@[0] == c2);
            }
        }
    }
    while unvisited.len() > 0
        invariant
            nn == m@.len() as nat,
            matrix_wf(mat_view(*m), nn),
            route@.len() + unvisited@.len() == nn,
            route@.len() >= 1,
            forall|k: int| 0 <= k < route@.len() ==> (#[trigger] route@[k]) < nn,
            forall|k: int| 0 <= k < unvisited@.len() ==> (#[trigger] unvisited@[k]) < nn,
            forall|k1: int, k2: int| 0 <= k1 < route@.len() && 0 <= k2 < route@.len() && k1 != k2
                ==> route@[k1] != route@[k2],
            forall|k1: int, k2: int| 0 <= k1 < unvisited@.len() && 0 <= k2 < unvisited@.len()
                && k1 != k2 ==> unvisited@[k1] != unvisited@[k2],
            forall|k1: int, k2: int| 0 <= k1 < route@.len() && 0 <= k2 < unvisited@.len()
                ==> route@[k1] != unvisited@[k2],
            forall|c2: usize| c2 < nn ==> route@.contains(c2) || unvisited@.contains(c2),
            greedy_tour(mat_view(*m), route@),
        decreases unvisited@.len(),
    {
        let current = route[route.len() - 1];
        let mut best_idx: usize = 0;
        let mut best_d: u64 = m[current][unvisited[0]];
        let u_len = unvisited.len();
        for t in 1..u_len
            invariant
                u_len == unvisited@.len(),
                nn == m@.len() as nat,
                matrix_wf(mat_view(*m), nn),
                current < nn,
                forall|k: int| 0 <= k < unvisited@.len() ==> (#[trigger] unvisited@[k]) < nn,
                best_idx < u_len,
                best_d == mat_view(*m)[current as int][unvisited@[best_idx as int] as int],
                forall|t2: int| 0 <= t2 < t
                    ==> best_d <= mat_view(*m)[current as int][(#[trigger] unvisited@[t2]) as int],
        {
            let d = m[current][unvisited[t]];
            if d < best_d {
                best_d = d;
                best_idx = t;
            }
        }
        let ghost old_unvisited = unvisited@;
        let ghost old_route = route@;
        let next = unvisited.remove(best_idx);
        proof {
            assert forall|k: int| 0 <= k < unvisited@.len()
                implies (#[trigger] unvisited@[k]) == (if k < best_idx {
                    old_unvisited[k]
                } else {
                    old_unvisited[k + 1]
                }) by {}
        }
        route.push(next);
        proof {
            let mv = mat_view(*m);
            // every city is still on one of the two lists
            assert forall|c2: usize| c2 < nn implies
                route@.contains(c2) || unvisited@.contains(c2) by {
                if old_route.contains(c2) {
                    let k = choose|k: int| 0 <= k < old_route.len() && old_route[k] == c2;
                    assert(route@[k] == c2);
                } else {
                    let k = choose|k: int|
                        0 <= k < old_unvisited.len() && old_unvisited[k] == c2;
                    if k == best_idx {
                        assert(route@[route@.len() - 1] == c2);
                    } else if k < best_idx {
                        assert(unvisited@[k] == c2);
                    } else {
                        assert(unvisited@[k - 1] == c2);
                    }
                }
            }
            // the appended step is greedy, and the earlier steps stay so
            assert forall|k: int| 0 <= k < route@.len() - 1 implies
                #[trigger] greedy_step(mv, route@, k) by {
                if k < route@.len() - 2 {
                    assert(route@.take(k + 1) =~= old_route.take(k + 1));
                    assert(greedy_step(mv, old_route, k));
                    assert forall|c: usize|
                        c < mv.len() && !(#[trigger] route@.take(k + 1).contains(c))
                        implies mv[route@[k] as int][route@[k + 1] as int]
                            <= mv[route@[k] as int][c as int] by {
                        assert(!old_route.take(k + 1).contains(c));
                        assert(route@[k] == old_route[k]);
                        assert(route@[k + 1] == old_route[k + 1]);
                    }
                } else {
                    assert(route@.take(k + 1) =~= old_route);
                    assert(route@[k] == current);
                    assert(route@[k + 1] == next);
                    assert(mv[current as int][next as int] == best_d);
                    assert forall|c: usize|
                        c < mv.len() && !(#[trigger] route@.take(k + 1).contains(c))
                        implies mv[route@[k] as int][route@[k + 1] as int]
                            <= mv[route@[k] as int][c as int] by {
                        assert(!old_route.contains(c));
                        assert(old_unvisited.contains(c));
                        let t2 = choose|t2: int|
                            0 <= t2 < old_unvisited.len() && old_unvisited[t2] == c;
                        assert(best_d <= mv[current as int][old_unvisited[t2] as int]);
                    }
                }
            }
        }
    }
    proof {
        assert(route@.len() == nn);
    }
    route
}

/// Pointwise equality of two recorded histories: the same orders and the
/// same cached distances.
pub open spec fn routes_match(a: Seq<Route>, b: Seq<Route>) -> bool {
    &&& a.len() == b.len()
    &&& forall|k: int| 0 <= k < a.len()
        ==> (#[trigger] a[k]).cities@ == b[k].cities@ && a[k].distance == b[k].distance
}

/// A well-formed recorded history over matrix `m`: every snapshot is a
/// well-formed tour, and the best-so-far distances never increase.
pub open spec fn history_ok(h: Seq<Route>, m: Seq<Seq<u64>>, n: nat) -> bool {
    &&& forall|k: int| 0 <= k < h.len() ==> route_ok(#[trigger] h[k], m, n)
    &&& forall|k1: int, k2: int| 0 <= k1 <= k2 < h.len()
        ==> (#[trigger] h[k2]).distance <= (#[trigger] h[k1]).distance
}

/// An element-for-element copy of a recorded history.
pub(crate) fn clone_routes(h: &Vec<Route>) -> (r: Vec<Route>)
    ensures
        routes_match(r@, h@),
{
    let mut r: Vec<Route> = Vec::new();
    let n = h.len();
    for i in 0..n
        invariant
            n == h@.len(),
            r@.len() == i,
            forall|k: int| 0 <= k < i
                ==> (#[trigger] r@[k]).cities@ == h@[k].cities@ && r@[k].distance == h@[k].distance,
    {
        let c = h[i].clone();
        r.push(c);
    }
    r
}

/// A TSP instance: the city list and the rounded Euclidean distance matrix
/// built from it, plus the optional known optimum used only for reporting.
#[derive(Clone)]
pub struct TspLib {
    pub name: String,
    pub comment: String,
    pub dimension: usize,
    pub cities: Vec<City>,
    pub distance_matrix: Vec<Vec<u64>>,
    pub optimal_tour: Option<Vec<usize>>,
    pub optimal_tour_length: Option<u64>,
}

/// The cities an instance may be built from: at least two of them, not more
/// than `MAX_DIM`, all coordinates bounded.
pub open spec fn instance_ok(cities: Seq<City>) -> bool {
    &&& 2 <= cities.len() <= MAX_DIM as int
    &&& forall|i: int| 0 <= i < cities.len() ==> coord_ok(#[trigger] cities[i])
}

impl TspLib {
    /// The instance is fit to solve on: the matrix is square over
    /// `dimension` cities, bounded, symmetric and zero on the diagonal.
    pub open spec fn wf(&self) -> bool {
        &&& self.dimension == self.cities@.len()
        &&& self.dimension == self.distance_matrix@.len()
        &&& matrix_wf(mat_view(self.distance_matrix), self.dimension as nat)
    }

    /// The abstract distance matrix.
    pub open spec fn mat(&self) -> Seq<Seq<u64>> {
        mat_view(self.distance_matrix)
    }

    /// The number of cities.
    pub open spec fn n(&self) -> nat {
        self.dimension as nat
    }

    /// An empty instance, to be filled through [`TspLib::from_cities`].
    pub fn new() -> (t: TspLib)
        ensures
            t.wf(),
            t.dimension == 0,
    {
        TspLib {
            name: String::new(),
            comment: String::new(),
            dimension: 0,
            cities: Vec::new(),
            distance_matrix: Vec::new(),
            optimal_tour: None,
            optimal_tour_length: None,
        }
    }

    /// Builds an instance from a city list, computing the full rounded
    /// Euclidean distance matrix; rejects degenerate or oversized lists and
    /// unbounded coordinates.
    pub fn from_cities(name: String, comment: String, cities: Vec<City>) -> (r: Option<TspLib>)
        ensures
            r is Some <==> instance_ok(cities@),
            r matches Some(t) ==> {
                &&& t.wf()
                &&& t.dimension == cities@.len()
                &&& t.cities@ == cities@
                &&& forall|i: int, j: int|
                    0 <= i < cities@.len() && 0 <= j < cities@.len()
                        ==> is_rounded_dist(cities@[i], cities@[j], #[trigger] t.mat()[i][j])
            },
    {
        let n = cities.len();
        if n < 2 || n > MAX_DIM {
            return None;
        }
        for i in 0..n
            invariant
                n == cities@.len(),
                forall|k: int| 0 <= k < i ==> coord_ok(#[trigger] cities@[k]),
        {
            let c = cities[i];
            if c.0 < -MAX_COORD || c.0 > MAX_COORD || c.1 < -MAX_COORD || c.1 > MAX_COORD {
                return None;
            }
        }
        let mut matrix: Vec<Vec<u64>> = Vec::new();
        for i in 0..n
            invariant
                n == cities@.len(),
                instance_ok(cities@),
                matrix@.len() == i,
                forall|p: int| 0 <= p < i ==> (#[trigger] matrix@[p])@.len() == n,
                forall|p: int, q: int| 0 <= p < i && 0 <= q < n
                    ==> is_rounded_dist(cities@[p], cities@[q], #[trigger] matrix@[p]@[q])
                        && matrix@[p]@[q] <= MAX_EDGE,
                forall|p: int| 0 <= p < i ==> (#[trigger] matrix@[p])@[p] == 0,
        {
            let mut row: Vec<u64> = Vec::new();
            for j in 0..n
                invariant
                    n == cities@.len(),
                    instance_ok(cities@),
                    i < n,
                    row@.len() == j,
                    forall|q: int| 0 <= q < j
                        ==> is_rounded_dist(cities@[i as int], cities@[q], #[trigger] row@[q])
                            && row@[q] <= MAX_EDGE,
                    j > i ==> row@[i as int] == 0,
            {
                let ghost old_row = row@;
                if i == j {
                    row.push(0);
                    proof {
                        let c = cities@[i as int];
                        assert(c.0 - c.0 == 0 && c.1 - c.1 == 0);
                        assert(sq_dist(c, c) == 0) by (nonlinear_arith);
                        assert(is_rounded_dist(c, c, 0));
                        assert(forall|q: int| 0 <= q < j ==> row@[q] == old_row[q]);
                    }
                } else {
                    let d = euclidean_distance(&cities[i], &cities[j]);
                    row.push(d);
                    proof {
                        assert(forall|q: int| 0 <= q < j ==> row@[q] == old_row[q]);
                    }
                }
            }
            matrix.push(row);
        }
        let ghost nn = n as nat;
        proof {
            assert forall|p: int, q: int| 0 <= p < n && 0 <= q < n
                implies (#[trigger] mat_view(matrix)[p][q]) == mat_view(matrix)[q][p] by {
                lemma_rounded_dist_unique(
                    cities@[p],
                    cities@[q],
                    matrix@[p]@[q],
                    matrix@[q]@[p],
                );
            }
        }
        Some(TspLib {
            name,
            comment,
            dimension: n,
            cities,
            distance_matrix: matrix,
            optimal_tour: None,
            optimal_tour_length: None,
        })
    }
}

/// The contract the four engines share: `solve` overwrites the outputs and
/// leaves a well-formed best tour, a history of well-formed best-so-far
/// snapshots whose distances never increase, and a best no worse than any
/// snapshot; the getters hand the outputs back unchanged.
pub trait HeuristicAlgorithm {
    /// The engine's parameters fit the instance it will solve.
    spec fn ready(&self, tsp: &TspLib) -> bool;

    /// The recorded best-so-far history.
    spec fn history_view(&self) -> Seq<Route>;

    /// The best tour found.
    spec fn best_view(&self) -> Route;

    /// The wall-clock milliseconds the last solve took.
    spec fn run_time_view(&self) -> u64;

    fn solve(&mut self, tsp: &TspLib)
        requires
            tsp.wf(),
            tsp.dimension >= 2,
            old(self).ready(tsp),
        ensures
            final(self).ready(tsp),
            history_ok(final(self).history_view(), tsp.mat(), tsp.n()),
            route_ok(final(self).best_view(), tsp.mat(), tsp.n()),
            forall|k: int| 0 <= k < final(self).history_view().len()
                ==> final(self).best_view().distance
                    <= (#[trigger] final(self).history_view()[k]).distance,
    ;

    fn get_history(&self) -> (h: Vec<Route>)
        ensures
            routes_match(h@, self.history_view()),
    ;

    fn get_best_route(&self) -> (r: Route)
        ensures
            r.cities@ == self.best_view().cities@,
            r.distance == self.best_view().distance,
    ;

    fn get_run_time(&self) -> (t: u64)
        ensures
            t == self.run_time_view(),
    ;
}

} // verus!
