//! The 2-opt local search shared by all four engines: an exhaustive
//! steepest-descent pass repeated until no segment reversal improves the
//! tour, and a cheap randomized variant used inside engine loops.

use vstd::prelude::*;
use crate::dist::{mat_view, matrix_wf, tour_dist};
use crate::ext::rand_index;
use crate::perm::{reverse_range, valid_perm};
use crate::tsplib::{copy_indices, route_ok, Route};

verus! {

broadcast use crate::dist::lemma_mat_view_entry;

/// `s` is a 2-opt local optimum under `m`: no segment reversal yields a
/// strictly shorter tour.
pub open spec fn local_opt(m: Seq<Seq<u64>>, s: Seq<usize>) -> bool {
    forall|i: int, j: int| 0 <= i < j < s.len()
        ==> tour_dist(m, reverse_range(s, i, j)) >= tour_dist(m, s)
}

/// Exhaustive steepest-descent 2-opt: repeatedly scans every position pair,
/// applying each strictly improving reversal, until a full pass finds none.
/// The result is a 2-opt local optimum no longer than the input; an input
/// that already is a local optimum comes back unchanged, so re-running the
/// search on its own output changes nothing.
pub fn two_opt_full(order: &Vec<usize>, m: &Vec<Vec<u64>>) -> (r: Route)
    requires
        matrix_wf(mat_view(*m), m@.len() as nat),
        valid_perm(order@, m@.len() as nat),
        m@.len() >= 2,
    ensures
        route_ok(r, mat_view(*m), m@.len() as nat),
        r.distance as int <= tour_dist(mat_view(*m), order@),
        local_opt(mat_view(*m), r.cities@),
        local_opt(mat_view(*m), order@) ==> r.cities@ == order@,
        r.distance as int == tour_dist(mat_view(*m), order@) ==> r.cities@ == order@,
{
    let ghost mv = mat_view(*m);
    let ghost nn = m@.len() as nat;
    let n = order.len();
    let mut current = Route::new(copy_indices(order), m);
    let mut improved = true;
    while improved
        invariant
            mv == mat_view(*m),
            nn == m@.len() as nat,
            matrix_wf(mv, nn),
            2 <= nn,
            n == nn,
            valid_perm(order@, nn),
            route_ok(current, mv, nn),
            current.distance as int <= tour_dist(mv, order@),
            current.cities@ == order@ || !local_opt(mv, order@),
            current.cities@ == order@ || (current.distance as int) < tour_dist(mv, order@),
            !improved ==> local_opt(mv, current.cities@),
        decreases current.distance as int + (if improved { 1int } else { 0int }),
    {
        let ghost dist_at_pass_start = current.distance;
        improved = false;
        let mut i: usize = 0;
        while i + 1 < n
            invariant
                mv == mat_view(*m),
                nn == m@.len() as nat,
                matrix_wf(mv, nn),
                2 <= nn,
                n == nn,
                i <= n,
                valid_perm(order@, nn),
                route_ok(current, mv, nn),
                current.distance as int <= tour_dist(mv, order@),
                current.cities@ == order@ || !local_opt(mv, order@),
                current.cities@ == order@ || (current.distance as int) < tour_dist(mv, order@),
                improved ==> current.distance < dist_at_pass_start,
                !improved ==> current.distance == dist_at_pass_start,
                !improved ==> forall|p: int, q: int|
                    0 <= p < i && p < q < n
                        ==> tour_dist(mv, reverse_range(current.cities@, p, q))
                            >= current.distance as int,
            decreases n - i,
        {
            let mut j: usize = i + 1;
            while j < n
                invariant
                    mv == mat_view(*m),
                    nn == m@.len() as nat,
                    matrix_wf(mv, nn),
                    2 <= nn,
                    n == nn,
                    i < n,
                    i < j <= n,
                    valid_perm(order@, nn),
                    route_ok(current, mv, nn),
                    current.distance as int <= tour_dist(mv, order@),
                    current.cities@ == order@ || !local_opt(mv, order@),
                    current.cities@ == order@ || (current.distance as int) < tour_dist(mv, order@),
                    improved ==> current.distance < dist_at_pass_start,
                    !improved ==> current.distance == dist_at_pass_start,
                    !improved ==> forall|p: int, q: int|
                        0 <= p < i && p < q < n
                            ==> tour_dist(mv, reverse_range(current.cities@, p, q))
                                >= current.distance as int,
                    !improved ==> forall|q: int|
                        i < q < j
                            ==> tour_dist(mv, reverse_range(current.cities@, i as int, q))
                                >= current.distance as int,
                decreases n - j,
            {
                let cand = current.two_opt_move(i, j, m);
                if cand.distance < current.distance {
                    proof {
                        if current.cities@ == order@ {
                            if local_opt(mv, order@) {
                                assert(tour_dist(mv, reverse_range(order@, i as int, j as int))
                                    >= tour_dist(mv, order@));
                                assert(false);
                            }
                        }
                    }
                    current = cand;
                    improved = true;
                }
                j = j + 1;
            }
            i = i + 1;
        }
        proof {
            if !improved {
                assert forall|p: int, q: int| 0 <= p < q < current.cities@.len()
                    implies tour_dist(mv, reverse_range(current.cities@, p, q))
                        >= tour_dist(mv, current.cities@) by {
                    assert(p < i && p < q < n);
                }
            }
        }
    }
    current
}

/// Randomized 2-opt refinement: samples `attempts` position pairs and keeps
/// each strictly improving reversal.  The result is the input unchanged or
/// a strictly shorter tour.
pub fn two_opt_randomized(order: &Vec<usize>, m: &Vec<Vec<u64>>, attempts: usize) -> (r: Route)
    requires
        matrix_wf(mat_view(*m), m@.len() as nat),
        valid_perm(order@, m@.len() as nat),
        m@.len() >= 2,
    ensures
        route_ok(r, mat_view(*m), m@.len() as nat),
        r.distance as int <= tour_dist(mat_view(*m), order@),
        r.cities@ == order@ || (r.distance as int) < tour_dist(mat_view(*m), order@),
{
    let ghost mv = mat_view(*m);
    let ghost nn = m@.len() as nat;
    let n = order.len();
    let mut current = Route::new(copy_indices(order), m);
    for _k in 0..attempts
        invariant
            mv == mat_view(*m),
            nn == m@.len() as nat,
            matrix_wf(mv, nn),
            2 <= nn,
            n == nn,
            route_ok(current, mv, nn),
            current.distance as int <= tour_dist(mv, order@),
            current.cities@ == order@ || (current.distance as int) < tour_dist(mv, order@),
    {
        let i = rand_index(n);
        let j = rand_index(n);
        let cand = current.two_opt_move(i, j, m);
        if cand.distance < current.distance {
            current = cand;
        }
    }
    current
}

} // verus!
