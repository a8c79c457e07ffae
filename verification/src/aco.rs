//! Ant-colony optimization: ants build tours edge by edge, drawn by
//! pheromone and inverse distance through cumulative-sum sampling; after
//! each iteration the pheromone matrix evaporates multiplicatively and every
//! ant deposits weight on the edges it walked.  With evaporation switched
//! off the update is proved strictly additive.

use vstd::prelude::*;
use vstd::arithmetic::div_mod::{lemma_div_is_ordered, lemma_div_multiples_vanish};
use crate::dist::mat_view;
use crate::ext::{coin, elapsed_millis, instant_now, rand_below, rand_index};
use crate::local_search::two_opt_full;
use crate::tsplib::{clone_routes, greedy_tour, history_ok, identity_order,
    nearest_neighbor_order, route_ok, HeuristicAlgorithm, Route, TspLib};
use crate::SCALE;

verus! {

broadcast use crate::dist::lemma_mat_view_entry;

/// The initial pheromone weight on every edge: 1.0 in `SCALE` units.
pub const PH_INIT: u64 = 1000;

/// The saturation cap on a pheromone weight.
pub const PH_MAX: u64 = 1099511627776;

/// The cap on a sampling weight `tau^alpha * eta^beta`.
pub const W_CAP: u64 = 4294967296;

/// The largest admissible deposit factor `q`, in `SCALE` units.
pub const Q_MAX: u64 = 1_000_000_000;

/// The largest admissible pheromone or distance exponent.
pub const EXP_MAX: u32 = 8;

/// A well-formed pheromone matrix over `n` cities: square with every weight
/// at most `PH_MAX`.
pub open spec fn pheromone_wf(ph: Seq<Seq<u64>>, n: nat) -> bool {
    &&& ph.len() == n
    &&& forall|i: int| 0 <= i < n ==> (#[trigger] ph[i]).len() == n
    &&& forall|i: int, j: int| 0 <= i < n && 0 <= j < n ==> (#[trigger] ph[i][j]) <= PH_MAX
}

/// The sum of the first `k` sampling weights.
pub open spec fn wsum(s: Seq<u64>, k: int) -> int
    decreases k,
{
    if k <= 0 {
        0
    } else {
        wsum(s, k - 1) + s[k - 1]
    }
}

/// Prefix sums of non-negative weights grow with the prefix.
proof fn lemma_wsum_mono(s: Seq<u64>, a: int, b: int)
    requires
        0 <= a <= b <= s.len(),
    ensures
        wsum(s, a) <= wsum(s, b),
    decreases b - a,
{
    if a < b {
        lemma_wsum_mono(s, a, b - 1);
    }
}

/// A prefix sum reads only the entries before `k`, so extending the weight
/// vector does not change it.
proof fn lemma_wsum_prefix(s1: Seq<u64>, s2: Seq<u64>, k: int)
    requires
        0 <= k <= s1.len(),
        k <= s2.len(),
        forall|i: int| 0 <= i < k ==> s1[i] == s2[i],
    ensures
        wsum(s1, k) == wsum(s2, k),
    decreases k,
{
    if k > 0 {
        lemma_wsum_prefix(s1, s2, k - 1);
    }
}

/// One multiplicative evaporation step on a pheromone weight.
pub open spec fn evaporated(v: int, decay: int) -> int {
    v * ((SCALE as int) - decay) / (SCALE as int)
}

/// A pheromone weight clamped at the saturation cap.
pub open spec fn ph_clamp(x: int) -> int {
    if x > PH_MAX as int {
        PH_MAX as int
    } else {
        x
    }
}

/// A sampling weight clamped at its cap.
pub open spec fn fp_clamp(x: int) -> int {
    if x > W_CAP as int {
        W_CAP as int
    } else {
        x
    }
}

/// Fixed-point power with per-step saturation: the value `pow_capped`
/// computes.
pub open spec fn fp_pow(base: int, e: nat) -> int
    decreases e,
{
    if e == 0 {
        SCALE as int
    } else {
        fp_clamp(fp_pow(base, (e - 1) as nat) * fp_clamp(base) / (SCALE as int))
    }
}

/// The sampling weight of moving from `current` to `city`:
/// `pheromone^alpha * (1 / distance)^beta` in saturating fixed point, with
/// the zero-distance floor.
pub open spec fn sampling_weight(
    m: Seq<Seq<u64>>,
    ph: Seq<Seq<u64>>,
    alpha: u32,
    beta: u32,
    current: int,
    city: int,
) -> int {
    let d = m[current][city] as int;
    let d_floored = if d == 0 {
        1int
    } else {
        d
    };
    fp_clamp(
        fp_pow(ph[current][city] as int, alpha as nat)
            * fp_pow((SCALE as int) / d_floored, beta as nat) / (SCALE as int),
    )
}

/// Some candidate in `unvisited` has a non-zero sampling weight.
pub open spec fn some_weight_positive(
    m: Seq<Seq<u64>>,
    ph: Seq<Seq<u64>>,
    alpha: u32,
    beta: u32,
    current: int,
    unvisited: Seq<usize>,
) -> bool {
    exists|t: int| 0 <= t < unvisited.len()
        && sampling_weight(m, ph, alpha, beta, current, unvisited[t] as int) != 0
}

/// One evaporation step on a single weight: multiply by
/// `(SCALE - decay) / SCALE`.  Never grows the weight, and with `decay == 0`
/// leaves it exactly as it was.
fn evaporate_value(v: u64, decay: u64) -> (r: u64)
    requires
        v <= PH_MAX,
        decay <= SCALE,
    ensures
        r as int == evaporated(v as int, decay as int),
        r <= v,
        decay == 0 ==> r == v,
{
    proof {
        assert((v as int) * ((SCALE - decay) as int) <= (PH_MAX as int) * (SCALE as int))
            by (nonlinear_arith)
            requires
                0 <= v as int <= PH_MAX as int,
                0 <= (SCALE - decay) as int <= SCALE as int,
        ;
    }
    let r = v * (SCALE - decay) / SCALE;
    proof {
        assert((v as int) * ((SCALE - decay) as int) <= (v as int) * (SCALE as int))
            by (nonlinear_arith)
            requires
                0 <= v as int,
                0 <= (SCALE - decay) as int <= SCALE as int,
        ;
        lemma_div_is_ordered(
            (v as int) * ((SCALE - decay) as int),
            (v as int) * (SCALE as int),
            SCALE as int,
        );
        lemma_div_multiples_vanish(v as int, SCALE as int);
    }
    r
}

/// Fixed-point power with saturation: `SCALE * (base / SCALE)^e`, capped at
/// `W_CAP` after every step.
fn pow_capped(base: u64, e: u32) -> (r: u64)
    ensures
        r <= W_CAP,
        r as int == fp_pow(base as int, e as nat),
{
    let b = if base > W_CAP {
        W_CAP
    } else {
        base
    };
    let mut acc: u64 = SCALE;
    let mut k: u32 = 0;
    while k < e
        invariant
            acc <= W_CAP,
            b <= W_CAP,
            b as int == fp_clamp(base as int),
            k <= e,
            acc as int == fp_pow(base as int, k as nat),
        decreases e - k,
    {
        proof {
            assert((acc as int) * (b as int) <= (W_CAP as int) * (W_CAP as int))
                by (nonlinear_arith)
                requires
                    0 <= acc as int <= W_CAP as int,
                    0 <= b as int <= W_CAP as int,
            ;
        }
        let prod = (acc as u128) * (b as u128) / (SCALE as u128);
        acc = if prod > W_CAP as u128 {
            W_CAP
        } else {
            prod as u64
        };
        k = k + 1;
    }
    acc
}

/// Fixed-point product with saturation: `a * b / SCALE`, capped at `W_CAP`.
fn mul_fp_capped(a: u64, b: u64) -> (r: u64)
    requires
        a <= W_CAP,
        b <= W_CAP,
    ensures
        r <= W_CAP,
        r as int == fp_clamp((a as int) * (b as int) / (SCALE as int)),
{
    proof {
        assert((a as int) * (b as int) <= (W_CAP as int) * (W_CAP as int)) by (nonlinear_arith)
            requires
                0 <= a as int <= W_CAP as int,
                0 <= b as int <= W_CAP as int,
        ;
    }
    let prod = (a as u128) * (b as u128) / (SCALE as u128);
    if prod > W_CAP as u128 {
        W_CAP
    } else {
        prod as u64
    }
}

/// The deposit a tour lays on every edge it walks: `q / distance`, with
/// the zero-distance floor.
pub open spec fn route_deposit(q: int, r: Route) -> int {
    q / (if r.distance == 0 {
        1int
    } else {
        r.distance as int
    })
}

/// Step `k` of tour `r` walks the undirected edge `{i, j}` (the last step
/// is the wrap-around edge back to the first city).
pub open spec fn walks_edge(r: Seq<usize>, k: int, i: int, j: int) -> bool {
    let a = r[k] as int;
    let b = (if k + 1 == r.len() {
        r[0]
    } else {
        r[k + 1]
    }) as int;
    (a == i && b == j) || (a == j && b == i)
}

/// The deposit the first `upto` steps of tour `r` lay on edge `{i, j}`.
pub open spec fn step_deposits(r: Seq<usize>, dep: int, i: int, j: int, upto: int) -> int
    decreases upto,
{
    if upto <= 0 {
        0
    } else {
        step_deposits(r, dep, i, j, upto - 1) + (if walks_edge(r, upto - 1, i, j) {
            dep
        } else {
            0
        })
    }
}

/// The deposit the first `upto` tours lay on edge `{i, j}`.
pub open spec fn total_deposits(sols: Seq<Route>, q: int, i: int, j: int, upto: int) -> int
    decreases upto,
{
    if upto <= 0 {
        0
    } else {
        total_deposits(sols, q, i, j, upto - 1) + step_deposits(
            sols[upto - 1].cities@,
            route_deposit(q, sols[upto - 1]),
            i,
            j,
            sols[upto - 1].cities@.len() as int,
        )
    }
}

/// A tour deposits the same on both directions of an edge.
proof fn lemma_step_deposits_sym(r: Seq<usize>, dep: int, i: int, j: int, upto: int)
    ensures
        step_deposits(r, dep, i, j, upto) == step_deposits(r, dep, j, i, upto),
    decreases upto,
{
    if upto > 0 {
        lemma_step_deposits_sym(r, dep, i, j, upto - 1);
    }
}

/// All tours together deposit the same on both directions of an edge.
proof fn lemma_total_deposits_sym(sols: Seq<Route>, q: int, i: int, j: int, upto: int)
    ensures
        total_deposits(sols, q, i, j, upto) == total_deposits(sols, q, j, i, upto),
    decreases upto,
{
    if upto > 0 {
        lemma_total_deposits_sym(sols, q, i, j, upto - 1);
        lemma_step_deposits_sym(
            sols[upto - 1].cities@,
            route_deposit(q, sols[upto - 1]),
            i,
            j,
            sols[upto - 1].cities@.len() as int,
        );
    }
}

/// Raises one pheromone entry by `dep`, saturating at `PH_MAX`.  No entry
/// ever shrinks.
fn bump_edge(pheromone: &mut Vec<Vec<u64>>, a: usize, b: usize, dep: u64, Ghost(n): Ghost<nat>)
    requires
        pheromone_wf(mat_view(*old(pheromone)), n),
        a < n,
        b < n,
        dep <= Q_MAX,
    ensures
        pheromone_wf(mat_view(*final(pheromone)), n),
        forall|i: int, j: int| 0 <= i < n && 0 <= j < n
            ==> (#[trigger] mat_view(*final(pheromone))[i][j]) >= mat_view(*old(pheromone))[i][j],
        mat_view(*final(pheromone))[a as int][b as int] as int
            == ph_clamp(mat_view(*old(pheromone))[a as int][b as int] as int + dep as int),
        forall|i: int, j: int| 0 <= i < n && 0 <= j < n && !(i == a as int && j == b as int)
            ==> (#[trigger] mat_view(*final(pheromone))[i][j])
                == mat_view(*old(pheromone))[i][j],
{
    let ghost old_ph = mat_view(*pheromone);
    let v = pheromone[a][b];
    let nv = if v > PH_MAX - dep {
        PH_MAX
    } else {
        v + dep
    };
    proof {
        assert(nv as int == ph_clamp(v as int + dep as int));
    }
    let row_len = pheromone[a].len();
    let mut new_row: Vec<u64> = Vec::new();
    let mut j: usize = 0;
    while j < row_len
        invariant
            pheromone_wf(mat_view(*pheromone), n),
            mat_view(*pheromone) == old_ph,
            a < n,
            b < n,
            row_len == old_ph[a as int].len(),
            v == old_ph[a as int][b as int],
            v <= nv <= PH_MAX,
            j <= row_len,
            new_row@.len() == j,
            forall|q: int| 0 <= q < j && q != b
                ==> (#[trigger] new_row@[q]) == old_ph[a as int][q],
            forall|q: int| 0 <= q < j && q == b ==> (#[trigger] new_row@[q]) == nv,
        decreases row_len - j,
    {
        if j == b {
            new_row.push(nv);
        } else {
            new_row.push(pheromone[a][j]);
        }
        j = j + 1;
    }
    pheromone[a] = new_row;
    proof {
        assert forall|i: int, jj: int| 0 <= i < n && 0 <= jj < n implies
            (#[trigger] mat_view(*pheromone)[i][jj]) >= old_ph[i][jj]
                && mat_view(*pheromone)[i][jj] <= PH_MAX by {
            if i == a as int {
                if jj == b as int {
                    assert(mat_view(*pheromone)[i][jj] == nv);
                } else {
                    assert(mat_view(*pheromone)[i][jj] == old_ph[i][jj]);
                }
            }
        }
    }
}

/// The fresh pheromone matrix: every edge starts at `PH_INIT`.
fn init_pheromone(n: usize) -> (ph: Vec<Vec<u64>>)
    ensures
        pheromone_wf(mat_view(ph), n as nat),
        forall|i: int, j: int| 0 <= i < n && 0 <= j < n
            ==> (#[trigger] mat_view(ph)[i][j]) == PH_INIT,
{
    let mut ph: Vec<Vec<u64>> = Vec::new();
    let mut i: usize = 0;
    while i < n
        invariant
            i <= n,
            ph@.len() == i,
            forall|p: int| 0 <= p < i ==> (#[trigger] ph@[p])@.len() == n,
            forall|p: int, q: int| 0 <= p < i && 0 <= q < n
                ==> (#[trigger] ph@[p]@[q]) == PH_INIT,
        decreases n - i,
    {
        let mut row: Vec<u64> = Vec::new();
        let mut j: usize = 0;
        while j < n
            invariant
                j <= n,
                row@.len() == j,
                forall|q: int| 0 <= q < j ==> (#[trigger] row@[q]) == PH_INIT,
            decreases n - j,
        {
            row.push(PH_INIT);
            j = j + 1;
        }
        ph.push(row);
        i = i + 1;
    }
    ph
}

/// Ant-colony optimization over a shared TSP instance.  `alpha` and `beta`
/// are integer exponents; `decay`, `q` and `local_search_prob` are
/// fixed-point numbers in `SCALE` units.
pub struct AntColonyOptimization {
    pub history: Vec<Route>,
    pub best_route: Route,
    pub run_time: u64,
    pub alpha: u32,
    pub beta: u32,
    pub decay: u64,
    pub q: u64,
    pub ants: usize,
    pub iterations: usize,
    pub local_search_prob: u64,
}

impl AntColonyOptimization {
    /// A solver with the given parameters, its best tour seeded with the
    /// identity tour of the instance.
    pub fn new(
        tsp: &TspLib,
        alpha: u32,
        beta: u32,
        decay: u64,
        q: u64,
        ants: usize,
        iterations: usize,
        local_search_prob: u64,
    ) -> (r: AntColonyOptimization)
        requires
            tsp.wf(),
            tsp.dimension >= 2,
            alpha <= EXP_MAX,
            beta <= EXP_MAX,
            decay <= SCALE,
            q <= Q_MAX,
        ensures
            r.ready(tsp),
            r.history_view().len() == 0,
            r.run_time == 0,
            route_ok(r.best_view(), tsp.mat(), tsp.n()),
            r.decay == decay,
            r.ants == ants,
            r.iterations == iterations,
    {
        let order = identity_order(tsp.dimension);
        AntColonyOptimization {
            history: Vec::new(),
            best_route: Route::new(order, &tsp.distance_matrix),
            run_time: 0,
            alpha,
            beta,
            decay,
            q,
            ants,
            iterations,
            local_search_prob,
        }
    }

    /// The greedy nearest-neighbour seed tour.
    fn initialize_nearest_neighbor(&self, tsp: &TspLib) -> (r: Route)
        requires
            tsp.wf(),
            tsp.dimension >= 2,
        ensures
            route_ok(r, tsp.mat(), tsp.n()),
            greedy_tour(tsp.mat(), r.cities@),
    {
        let order = nearest_neighbor_order(&tsp.distance_matrix);
        Route::new(order, &tsp.distance_matrix)
    }

    /// Full 2-opt refinement of one constructed tour.
    fn apply_2opt(&self, route: &Route, tsp: &TspLib) -> (r: Route)
        requires
            tsp.wf(),
            tsp.dimension >= 2,
            route_ok(*route, tsp.mat(), tsp.n()),
        ensures
            route_ok(r, tsp.mat(), tsp.n()),
            r.distance <= route.distance,
    {
        two_opt_full(&route.cities, &tsp.distance_matrix)
    }

    /// Picks the next city among `unvisited` by cumulative-sum sampling with
    /// weight `pheromone^alpha * (1 / distance)^beta` per candidate,
    /// returning its index into `unvisited`.  The chosen candidate always
    /// has a non-zero sampling weight; when round-off leaves every weight
    /// zero the last candidate is taken — the documented fallback.
    fn select_next_city(
        &self,
        current: usize,
        unvisited: &Vec<usize>,
        pheromone: &Vec<Vec<u64>>,
        tsp: &TspLib,
    ) -> (idx: usize)
        requires
            tsp.wf(),
            pheromone_wf(mat_view(*pheromone), tsp.n()),
            self.alpha <= EXP_MAX,
            self.beta <= EXP_MAX,
            current < tsp.n(),
            1 <= unvisited@.len() <= tsp.n(),
            forall|k: int| 0 <= k < unvisited@.len() ==> (#[trigger] unvisited@[k]) < tsp.n(),
        ensures
            idx < unvisited@.len(),
            !some_weight_positive(tsp.mat(), mat_view(*pheromone), self.alpha, self.beta,
                current as int, unvisited@) ==> idx == unvisited@.len() - 1,
            some_weight_positive(tsp.mat(), mat_view(*pheromone), self.alpha, self.beta,
                current as int, unvisited@) ==> sampling_weight(tsp.mat(),
                mat_view(*pheromone), self.alpha, self.beta, current as int,
                unvisited@[idx as int] as int) > 0,
    {
        let ghost nn = tsp.n();
        let u_len = unvisited.len();
        let mut weights: Vec<u64> = Vec::new();
        let mut sum: u64 = 0;
        let mut t: usize = 0;
        while t < u_len
            invariant
                tsp.wf(),
                nn == tsp.n(),
                pheromone_wf(mat_view(*pheromone), nn),
                self.alpha <= EXP_MAX,
                self.beta <= EXP_MAX,
                current < nn,
                u_len == unvisited@.len(),
                forall|k: int| 0 <= k < unvisited@.len() ==> (#[trigger] unvisited@[k]) < nn,
                t <= u_len,
                u_len <= crate::MAX_DIM,
                weights@.len() == t,
                forall|k: int| 0 <= k < t ==> (#[trigger] weights@[k]) <= W_CAP,
                forall|k: int| 0 <= k < t ==> (#[trigger] weights@[k]) as int
                    == sampling_weight(tsp.mat(), mat_view(*pheromone), self.alpha,
                        self.beta, current as int, unvisited@[k] as int),
                sum as int == wsum(weights@, t as int),
                sum as int <= (t as int) * (W_CAP as int),
            decreases u_len - t,
        {
            let next = unvisited[t];
            let tau = pow_capped(pheromone[current][next], self.alpha);
            let d = tsp.distance_matrix[current][next];
            // distance floor: a zero-length edge must not blow up the
            // heuristic term
            let d_floored = if d == 0 {
                1
            } else {
                d
            };
            let eta = pow_capped(SCALE / d_floored, self.beta);
            let wt = mul_fp_capped(tau, eta);
            proof {
                assert((t as int) * (W_CAP as int) + (W_CAP as int)
                    == (t as int + 1) * (W_CAP as int)) by (nonlinear_arith);
                assert((t as int + 1) * (W_CAP as int)
                    <= (u_len as int) * (W_CAP as int)) by (nonlinear_arith)
                    requires t as int + 1 <= u_len as int;
                assert((u_len as int) * (W_CAP as int)
                    <= (crate::MAX_DIM as int) * (W_CAP as int)) by (nonlinear_arith)
                    requires u_len as int <= crate::MAX_DIM as int;
            }
            let ghost old_weights = weights@;
            weights.push(wt);
            proof {
                lemma_wsum_prefix(old_weights, weights@, t as int);
                assert(wsum(weights@, t as int + 1) == wsum(weights@, t as int) + wt);
                assert(wt as int == sampling_weight(tsp.mat(), mat_view(*pheromone),
                    self.alpha, self.beta, current as int, next as int));
            }
            sum = sum + wt;
            t = t + 1;
        }
        let ghost mv = tsp.mat();
        let ghost phv = mat_view(*pheromone);
        if sum == 0 {
            proof {
                if some_weight_positive(mv, phv, self.alpha, self.beta, current as int,
                    unvisited@) {
                    let t3 = choose|t3: int| 0 <= t3 < unvisited@.len()
                        && sampling_weight(mv, phv, self.alpha, self.beta, current as int,
                            unvisited@[t3] as int) != 0;
                    assert(weights@[t3] >= 1);
                    lemma_wsum_mono(weights@, 0, t3);
                    assert(wsum(weights@, t3 + 1) == wsum(weights@, t3) + weights@[t3]);
                    lemma_wsum_mono(weights@, t3 + 1, u_len as int);
                    assert(false);
                }
            }
            return u_len - 1;
        }
        let draw = rand_below(sum);
        let mut cum: u64 = 0;
        let mut t2: usize = 0;
        while t2 < u_len
            invariant
                mv == tsp.mat(),
                phv == mat_view(*pheromone),
                u_len == unvisited@.len(),
                u_len == weights@.len(),
                t2 <= u_len,
                forall|k: int| 0 <= k < u_len ==> (#[trigger] weights@[k]) as int
                    == sampling_weight(mv, phv, self.alpha, self.beta, current as int,
                        unvisited@[k] as int),
                cum as int == wsum(weights@, t2 as int),
                sum as int == wsum(weights@, u_len as int),
                cum <= sum,
                cum <= draw,
                draw < sum,
            decreases u_len - t2,
        {
            proof {
                lemma_wsum_mono(weights@, t2 as int + 1, u_len as int);
            }
            cum = cum + weights[t2];
            if cum > draw {
                proof {
                    assert(weights@[t2 as int] >= 1);
                    assert(sampling_weight(mv, phv, self.alpha, self.beta, current as int,
                        unvisited@[t2 as int] as int) > 0);
                    assert(some_weight_positive(mv, phv, self.alpha, self.beta,
                        current as int, unvisited@));
                }
                return t2;
            }
            t2 = t2 + 1;
        }
        proof {
            // the cumulative sum reaches `sum`, which is above the draw, so
            // the scan always returns inside the loop
            assert(false);
        }
        u_len - 1
    }

    /// One ant's tour: start at a uniformly drawn city, append sampled
    /// unvisited cities until none is left, then refine the tour by full
    /// 2-opt with probability `local_search_prob`.
    fn construct_solution(&self, pheromone: &Vec<Vec<u64>>, tsp: &TspLib) -> (r: Route)
        requires
            tsp.wf(),
            tsp.dimension >= 2,
            pheromone_wf(mat_view(*pheromone), tsp.n()),
            self.alpha <= EXP_MAX,
            self.beta <= EXP_MAX,
        ensures
            route_ok(r, tsp.mat(), tsp.n()),
    {
        let ghost nn = tsp.n();
        let n = tsp.dimension;
        let start = rand_index(n);
        let mut unvisited: Vec<usize> = Vec::new();
        for c in 0..n
            invariant
                start < n,
                forall|k: int| 0 <= k < unvisited@.len() ==> (#[trigger] unvisited@[k]) < c,
                forall|k1: int, k2: int| 0 <= k1 < k2 < unvisited@.len()
                    ==> unvisited@[k1] < unvisited@[k2],
                forall|k: int| 0 <= k < unvisited@.len()
                    ==> (#[trigger] unvisited@[k]) != start,
                unvisited@.len() == (if start < c { c - 1 } else { c as int }),
        {
            if c != start {
                unvisited.push(c);
            }
        }
        let mut path: Vec<usize> = Vec::new();
        path.push(start);
        while unvisited.len() > 0
            invariant
                tsp.wf(),
                nn == tsp.n(),
                2 <= nn,
                pheromone_wf(mat_view(*pheromone), nn),
                self.alpha <= EXP_MAX,
                self.beta <= EXP_MAX,
                path@.len() + unvisited@.len() == nn,
                path@.len() >= 1,
                forall|k: int| 0 <= k < path@.len() ==> (#[trigger] path@[k]) < nn,
                forall|k: int| 0 <= k < unvisited@.len() ==> (#[trigger] unvisited@[k]) < nn,
                forall|k1: int, k2: int|
                    0 <= k1 < path@.len() && 0 <= k2 < path@.len() && k1 != k2
                        ==> path@[k1] != path@[k2],
                forall|k1: int, k2: int|
                    0 <= k1 < unvisited@.len() && 0 <= k2 < unvisited@.len() && k1 != k2
                        ==> unvisited@[k1] != unvisited@[k2],
                forall|k1: int, k2: int|
                    0 <= k1 < path@.len() && 0 <= k2 < unvisited@.len()
                        ==> path@[k1] != unvisited@[k2],
            decreases unvisited@.len(),
        {
            let current = path[path.len() - 1];
            let idx = self.select_next_city(current, &unvisited, pheromone, tsp);
            let ghost old_unvisited = unvisited@;
            let next = unvisited.remove(idx);
            proof {
                assert forall|k: int| 0 <= k < unvisited@.len()
                    implies (#[trigger] unvisited@[k]) == (if k < idx {
                        old_unvisited[k]
                    } else {
                        old_unvisited[k + 1]
                    }) by {}
            }
            path.push(next);
        }
        let route = Route::new(path, &tsp.distance_matrix);
        if coin(self.local_search_prob) {
            self.apply_2opt(&route, tsp)
        } else {
            route
        }
    }

    /// The pheromone update after one iteration: evaporate every edge by
    /// `decay`, then let every ant tour deposit `q / distance` on both
    /// directions of each edge it walked.  Each final entry equals the
    /// evaporated old entry plus the tours' deposits on that edge,
    /// saturated at `PH_MAX`; a symmetric matrix stays symmetric, and with
    /// `decay == 0` the whole update is strictly additive: no entry
    /// shrinks.
    pub fn update_pheromone(
        &self,
        pheromone: &mut Vec<Vec<u64>>,
        solutions: &Vec<Route>,
        tsp: &TspLib,
    )
        requires
            tsp.wf(),
            tsp.dimension >= 2,
            pheromone_wf(mat_view(*old(pheromone)), tsp.n()),
            self.decay <= SCALE,
            self.q <= Q_MAX,
            forall|k: int| 0 <= k < solutions@.len()
                ==> route_ok(#[trigger] solutions@[k], tsp.mat(), tsp.n()),
        ensures
            pheromone_wf(mat_view(*final(pheromone)), tsp.n()),
            forall|i: int, j: int| 0 <= i < tsp.n() && 0 <= j < tsp.n()
                ==> (#[trigger] mat_view(*final(pheromone))[i][j]) as int
                    == ph_clamp(
                        evaporated(mat_view(*old(pheromone))[i][j] as int, self.decay as int)
                            + total_deposits(solutions@, self.q as int, i, j,
                                solutions@.len() as int),
                    ),
            (forall|i: int, j: int| 0 <= i < tsp.n() && 0 <= j < tsp.n()
                ==> (#[trigger] mat_view(*old(pheromone))[i][j])
                    == mat_view(*old(pheromone))[j][i]) ==> (forall|i: int, j: int|
                0 <= i < tsp.n() && 0 <= j < tsp.n()
                    ==> (#[trigger] mat_view(*final(pheromone))[i][j])
                        == mat_view(*final(pheromone))[j][i]),
            self.decay == 0 ==> forall|i: int, j: int|
                0 <= i < tsp.n() && 0 <= j < tsp.n()
                    ==> (#[trigger] mat_view(*final(pheromone))[i][j])
                        >= mat_view(*old(pheromone))[i][j],
    {
        let ghost nn = tsp.n();
        let ghost ph0 = mat_view(*pheromone);
        let n = tsp.dimension;
        // Evaporation.
        let mut i: usize = 0;
        while i < n
            invariant
                nn == n as nat,
                pheromone_wf(ph0, nn),
                self.decay <= SCALE,
                pheromone@.len() == nn,
                forall|p: int| 0 <= p < nn ==> (#[trigger] mat_view(*pheromone)[p]).len() == nn,
                forall|p: int, q: int| i <= p < nn && 0 <= q < nn
                    ==> (#[trigger] mat_view(*pheromone)[p][q]) == ph0[p][q],
                forall|p: int, q: int| 0 <= p < i && 0 <= q < nn
                    ==> (#[trigger] mat_view(*pheromone)[p][q]) <= ph0[p][q],
                forall|p: int, q: int| 0 <= p < i && 0 <= q < nn
                    ==> (#[trigger] mat_view(*pheromone)[p][q]) as int
                        == evaporated(ph0[p][q] as int, self.decay as int),
                self.decay == 0 ==> forall|p: int, q: int|
                    0 <= p < i && 0 <= q < nn
                        ==> (#[trigger] mat_view(*pheromone)[p][q]) == ph0[p][q],
            decreases n - i,
        {
            let mut new_row: Vec<u64> = Vec::new();
            let mut j: usize = 0;
            while j < n
                invariant
                    nn == n as nat,
                    pheromone_wf(ph0, nn),
                    self.decay <= SCALE,
                    i < n,
                    pheromone@.len() == nn,
                    forall|q: int| i as int <= q < nn
                        ==> (#[trigger] mat_view(*pheromone)[q]) == ph0[q],
                    j <= n,
                    new_row@.len() == j,
                    forall|q: int| 0 <= q < j ==> (#[trigger] new_row@[q]) <= ph0[i as int][q],
                    forall|q: int| 0 <= q < j ==> (#[trigger] new_row@[q]) as int
                        == evaporated(ph0[i as int][q] as int, self.decay as int),
                    self.decay == 0 ==> forall|q: int|
                        0 <= q < j ==> (#[trigger] new_row@[q]) == ph0[i as int][q],
                decreases n - j,
            {
                let v = pheromone[i][j];
                new_row.push(evaporate_value(v, self.decay));
                j = j + 1;
            }
            pheromone[i] = new_row;
            i = i + 1;
        }
        // Deposits.
        let ghost ph1 = mat_view(*pheromone);
        proof {
            assert forall|p: int, q: int| 0 <= p < nn && 0 <= q < nn implies
                (#[trigger] ph1[p][q]) as int
                    == evaporated(ph0[p][q] as int, self.decay as int) by {}
        }
        let ghost qd = self.q as int;
        let mut s: usize = 0;
        while s < solutions.len()
            invariant
                nn == n as nat,
                2 <= nn,
                tsp.wf(),
                self.q <= Q_MAX,
                qd == self.q as int,
                s <= solutions@.len(),
                forall|k: int| 0 <= k < solutions@.len()
                    ==> route_ok(#[trigger] solutions@[k], tsp.mat(), nn),
                pheromone_wf(mat_view(*pheromone), nn),
                forall|p: int, q: int| 0 <= p < nn && 0 <= q < nn
                    ==> (#[trigger] mat_view(*pheromone)[p][q]) >= ph1[p][q],
                forall|p: int, q: int| 0 <= p < nn && 0 <= q < nn
                    ==> (#[trigger] mat_view(*pheromone)[p][q]) as int
                        == ph_clamp(ph1[p][q] as int
                            + total_deposits(solutions@, qd, p, q, s as int)),
            decreases solutions@.len() - s,
        {
            let route = &solutions[s];
            let dist = route.distance;
            let d_floored = if dist == 0 {
                1
            } else {
                dist
            };
            let deposit = self.q / d_floored;
            proof {
                assert(deposit as int == route_deposit(qd, solutions@[s as int]));
            }
            let ghost rseq = route.cities@;
            let ghost dd = deposit as int;
            let len = route.cities.len();
            let mut k: usize = 0;
            while k < len
                invariant
                    nn == n as nat,
                    2 <= nn,
                    qd == self.q as int,
                    s < solutions@.len(),
                    rseq == solutions@[s as int].cities@,
                    rseq == route.cities@,
                    dd == deposit as int,
                    dd == route_deposit(qd, solutions@[s as int]),
                    len == route.cities@.len(),
                    len == nn,
                    forall|p: int| 0 <= p < len ==> (#[trigger] route.cities@[p]) < nn,
                    forall|p1: int, p2: int| 0 <= p1 < len && 0 <= p2 < len && p1 != p2
                        ==> rseq[p1] != rseq[p2],
                    deposit <= Q_MAX,
                    k <= len,
                    pheromone_wf(mat_view(*pheromone), nn),
                    forall|p: int, q: int| 0 <= p < nn && 0 <= q < nn
                        ==> (#[trigger] mat_view(*pheromone)[p][q]) >= ph1[p][q],
                    forall|p: int, q: int| 0 <= p < nn && 0 <= q < nn
                        ==> (#[trigger] mat_view(*pheromone)[p][q]) as int
                            == ph_clamp(ph1[p][q] as int
                                + total_deposits(solutions@, qd, p, q, s as int)
                                + step_deposits(rseq, dd, p, q, k as int)),
                decreases len - k,
            {
                let a = route.cities[k];
                let b = if k + 1 == len {
                    route.cities[0]
                } else {
                    route.cities[k + 1]
                };
                proof {
                    assert(a != b);
                }
                let ghost mid = mat_view(*pheromone);
                bump_edge(pheromone, a, b, deposit, Ghost(nn));
                let ghost mid2 = mat_view(*pheromone);
                bump_edge(pheromone, b, a, deposit, Ghost(nn));
                proof {
                    assert forall|p: int, q: int| 0 <= p < nn && 0 <= q < nn implies
                        (#[trigger] mat_view(*pheromone)[p][q]) >= ph1[p][q] by {
                        assert(mat_view(*pheromone)[p][q] >= mid2[p][q]);
                        assert(mid2[p][q] >= mid[p][q]);
                    }
                    assert forall|p: int, q: int| 0 <= p < nn && 0 <= q < nn implies
                        (#[trigger] mat_view(*pheromone)[p][q]) as int
                            == ph_clamp(ph1[p][q] as int
                                + total_deposits(solutions@, qd, p, q, s as int)
                                + step_deposits(rseq, dd, p, q, k as int + 1)) by {
                        let base = ph1[p][q] as int
                            + total_deposits(solutions@, qd, p, q, s as int);
                        if p == a as int && q == b as int {
                            assert(walks_edge(rseq, k as int, p, q));
                            assert(mat_view(*pheromone)[p][q] == mid2[p][q]);
                            assert(mid2[p][q] as int == ph_clamp(mid[p][q] as int + dd));
                            assert(mid[p][q] as int == ph_clamp(base
                                + step_deposits(rseq, dd, p, q, k as int)));
                        } else if p == b as int && q == a as int {
                            assert(walks_edge(rseq, k as int, p, q));
                            assert(mat_view(*pheromone)[p][q] as int
                                == ph_clamp(mid2[p][q] as int + dd));
                            assert(mid2[p][q] == mid[p][q]);
                            assert(mid[p][q] as int == ph_clamp(base
                                + step_deposits(rseq, dd, p, q, k as int)));
                        } else {
                            assert(!walks_edge(rseq, k as int, p, q));
                            assert(mat_view(*pheromone)[p][q] == mid2[p][q]);
                            assert(mid2[p][q] == mid[p][q]);
                        }
                    }
                }
                k = k + 1;
            }
            s = s + 1;
        }
        proof {
            assert forall|i2: int, j2: int| 0 <= i2 < nn && 0 <= j2 < nn implies
                (#[trigger] mat_view(*pheromone)[i2][j2]) as int
                    == ph_clamp(
                        evaporated(ph0[i2][j2] as int, self.decay as int)
                            + total_deposits(solutions@, qd, i2, j2, solutions@.len() as int),
                    ) by {}
            if forall|i2: int, j2: int| 0 <= i2 < nn && 0 <= j2 < nn
                ==> (#[trigger] ph0[i2][j2]) == ph0[j2][i2] {
                assert forall|i2: int, j2: int| 0 <= i2 < nn && 0 <= j2 < nn implies
                    (#[trigger] mat_view(*pheromone)[i2][j2])
                        == mat_view(*pheromone)[j2][i2] by {
                    lemma_total_deposits_sym(solutions@, qd, i2, j2, solutions@.len() as int);
                    assert(ph0[i2][j2] == ph0[j2][i2]);
                }
            }
        }
    }
}

impl HeuristicAlgorithm for AntColonyOptimization {
    open spec fn ready(&self, tsp: &TspLib) -> bool {
        &&& self.alpha <= EXP_MAX
        &&& self.beta <= EXP_MAX
        &&& self.decay <= SCALE
        &&& self.q <= Q_MAX
    }

    open spec fn history_view(&self) -> Seq<Route> {
        self.history@
    }

    open spec fn best_view(&self) -> Route {
        self.best_route
    }

    open spec fn run_time_view(&self) -> u64 {
        self.run_time
    }

    fn solve(&mut self, tsp: &TspLib)
        ensures
            final(self).history_view().len() == old(self).iterations,
            final(self).history_view().len() > 0 ==> {
                &&& final(self).history_view().last().cities@
                    == final(self).best_view().cities@
                &&& final(self).history_view().last().distance
                    == final(self).best_view().distance
            },
    {
        let start_time = instant_now();
        let ghost mv = tsp.mat();
        let ghost nn = tsp.n();
        let n = tsp.dimension;
        self.history = Vec::new();
        let mut pheromone = init_pheromone(n);
        self.best_route = self.initialize_nearest_neighbor(tsp);
        let ghost iters0 = self.iterations;
        let ghost ants0 = self.ants;
        let mut iteration: usize = 0;
        while iteration < self.iterations
            invariant
                tsp.wf(),
                mv == tsp.mat(),
                nn == tsp.n(),
                2 <= nn,
                n == tsp.dimension,
                self.ready(tsp),
                self.iterations == iters0,
                self.ants == ants0,
                iters0 == old(self).iterations,
                iteration <= iters0,
                self.history@.len() == iteration,
                self.history@.len() > 0 ==> self.history@.last().cities@
                    == self.best_route.cities@ && self.history@.last().distance
                    == self.best_route.distance,
                pheromone_wf(mat_view(pheromone), nn),
                route_ok(self.best_route, mv, nn),
                history_ok(self.history@, mv, nn),
                forall|k: int| 0 <= k < self.history@.len()
                    ==> self.best_route.distance <= (#[trigger] self.history@[k]).distance,
            decreases iters0 - iteration,
        {
            let mut solutions: Vec<Route> = Vec::new();
            let mut a: usize = 0;
            while a < self.ants
                invariant
                    tsp.wf(),
                    mv == tsp.mat(),
                    nn == tsp.n(),
                    2 <= nn,
                    self.ready(tsp),
                    self.iterations == iters0,
                    self.ants == ants0,
                    self.history@.len() == iteration,
                    pheromone_wf(mat_view(pheromone), nn),
                    route_ok(self.best_route, mv, nn),
                    history_ok(self.history@, mv, nn),
                    forall|k: int| 0 <= k < self.history@.len()
                        ==> self.best_route.distance <= (#[trigger] self.history@[k]).distance,
                    forall|k: int| 0 <= k < solutions@.len()
                        ==> route_ok(#[trigger] solutions@[k], mv, nn),
                decreases ants0 - a,
            {
                let solution = self.construct_solution(&pheromone, tsp);
                if solution.distance < self.best_route.distance {
                    self.best_route = solution.clone();
                }
                solutions.push(solution);
                a = a + 1;
            }
            self.update_pheromone(&mut pheromone, &solutions, tsp);
            self.history.push(self.best_route.clone());
            iteration = iteration + 1;
        }
        self.run_time = elapsed_millis(&start_time);
    }

    fn get_history(&self) -> (h: Vec<Route>) {
        clone_routes(&self.history)
    }

    fn get_best_route(&self) -> (r: Route) {
        self.best_route.clone()
    }

    fn get_run_time(&self) -> (t: u64) {
        self.run_time
    }
}

} // verus!
