//! Simulated annealing: a nearest-neighbour seed, temperature-scaled random
//! moves judged by the Metropolis criterion, and adaptive multiplicative
//! cooling clamped so the temperature strictly decreases — which is what
//! guarantees the solve terminates.

use vstd::prelude::*;
use vstd::arithmetic::div_mod::lemma_div_is_ordered_by_denominator;
use crate::dist::lemma_tour_dist_bounds;
use crate::ext::{coin, elapsed_millis, instant_now};
use crate::tsplib::{clone_routes, history_ok, nearest_neighbor_order, route_ok, routes_match,
    HeuristicAlgorithm, Route, TspLib};
use crate::{MAX_DIM, MAX_EDGE, SCALE};

verus! {

broadcast use crate::dist::lemma_mat_view_entry;

/// Largest admissible fixed-point temperature; keeps the cooling products
/// inside `u64`.
pub const MAX_TEMP: u64 = 1_000_000_000_000;

/// The cap on `delta / temperature` in `SCALE` units beyond which the
/// acceptance probability is taken as zero.
pub const METROPOLIS_CAP: u64 = 8000;

/// The capped fixed-point exponent `delta / temperature` of the Metropolis
/// rule, in `SCALE` units; a zero temperature exponents out to the cap.
pub open spec fn metropolis_exponent(delta: int, temperature: int) -> int {
    if temperature == 0 {
        METROPOLIS_CAP as int
    } else {
        let scaled = delta * (SCALE as int) / temperature;
        if scaled > METROPOLIS_CAP as int {
            METROPOLIS_CAP as int
        } else {
            scaled
        }
    }
}

/// The fixed-point Metropolis acceptance probability in `SCALE` units: the
/// cubic truncation `1 / (1 + x + x^2/2 + x^3/6)` of `exp(-x)` at the
/// capped exponent `x = delta / temperature`.
pub open spec fn metropolis_probability(delta: int, temperature: int) -> int {
    let q = metropolis_exponent(delta, temperature);
    (SCALE as int) * (SCALE as int) / (
        (SCALE as int) + q + q * q / (2 * SCALE as int) + q * q * q / (6 * (SCALE as int) * (
        SCALE as int))
    )
}

/// The Metropolis acceptance probability `exp(-delta / temperature)` in
/// `SCALE` units, approximated in fixed point by the cubic truncation
/// `1 / (1 + x + x^2/2 + x^3/6)` of the exponential, with the exponent
/// capped at `METROPOLIS_CAP / SCALE`.
fn acceptance_probability(delta: u64, temperature: u64) -> (p: u64)
    requires
        delta <= MAX_TEMP,
        temperature <= MAX_TEMP,
    ensures
        p <= SCALE,
        p as int == metropolis_probability(delta as int, temperature as int),
{
    let q = if temperature == 0 {
        METROPOLIS_CAP
    } else {
        let scaled = delta * SCALE / temperature;
        if scaled > METROPOLIS_CAP {
            METROPOLIS_CAP
        } else {
            scaled
        }
    };
    proof {
        assert(q * q <= 8000u64 * 8000u64) by (nonlinear_arith)
            requires q <= 8000u64;
        assert(q * q * q <= 8000u64 * 8000u64 * 8000u64) by (nonlinear_arith)
            requires q <= 8000u64;
    }
    let q2 = q * q / (2 * SCALE);
    let q3 = q * q * q / (6 * SCALE * SCALE);
    let denom = SCALE + q + q2 + q3;
    let p = SCALE * SCALE / denom;
    proof {
        lemma_div_is_ordered_by_denominator(
            (SCALE * SCALE) as int,
            SCALE as int,
            denom as int,
        );
    }
    p
}

/// The share of plain position swaps in the move mix, in `SCALE` units: it
/// equals the fraction of the initial temperature still left, so 2-opt
/// reversals take over as the system cools.
fn swap_share(temperature: u64, initial: u64) -> (s: u64)
    requires
        temperature <= MAX_TEMP,
    ensures
        s as int == (if initial == 0 {
            0int
        } else {
            (temperature as int) * (SCALE as int) / (initial as int)
        }),
{
    if initial == 0 {
        0
    } else {
        temperature * SCALE / initial
    }
}

/// Simulated annealing over a shared TSP instance.  The temperature,
/// cooling rate and floor are fixed-point numbers in `SCALE` units.
pub struct SimulatedAnnealing {
    pub history: Vec<Route>,
    pub best_route: Route,
    pub run_time: u64,
    pub temperature: u64,
    pub cooling_rate: u64,
    pub min_temperature: u64,
}

impl SimulatedAnnealing {
    /// A solver with the given schedule, its best tour seeded with the
    /// identity tour of the instance.
    pub fn new(tsp: &TspLib, temperature: u64, cooling_rate: u64, min_temperature: u64) -> (r:
        SimulatedAnnealing)
        requires
            tsp.wf(),
            tsp.dimension >= 2,
            temperature <= MAX_TEMP,
            cooling_rate <= SCALE,
        ensures
            r.ready(tsp),
            r.temperature == temperature,
            r.cooling_rate == cooling_rate,
            r.min_temperature == min_temperature,
            r.history_view().len() == 0,
            r.run_time == 0,
            route_ok(r.best_view(), tsp.mat(), tsp.n()),
    {
        let order = crate::tsplib::identity_order(tsp.dimension);
        SimulatedAnnealing {
            history: Vec::new(),
            best_route: Route::new(order, &tsp.distance_matrix),
            run_time: 0,
            temperature,
            cooling_rate,
            min_temperature,
        }
    }
}

impl HeuristicAlgorithm for SimulatedAnnealing {
    open spec fn ready(&self, tsp: &TspLib) -> bool {
        &&& self.temperature <= MAX_TEMP
        &&& self.cooling_rate <= SCALE
    }

    open spec fn history_view(&self) -> Seq<Route> {
        self.history@
    }

    open spec fn best_view(&self) -> Route {
        self.best_route
    }

    open spec fn run_time_view(&self) -> u64 {
        self.run_time
    }

    fn solve(&mut self, tsp: &TspLib)
        ensures
            old(self).temperature <= old(self).min_temperature
                ==> final(self).history_view().len() == 0,
            old(self).temperature > old(self).min_temperature
                ==> final(self).history_view().len() >= 1,
            final(self).history_view().len() > 0 ==> {
                &&& final(self).history_view().last().cities@
                    == final(self).best_view().cities@
                &&& final(self).history_view().last().distance
                    == final(self).best_view().distance
            },
            final(self).temperature <= final(self).min_temperature,
            final(self).min_temperature == old(self).min_temperature,
            final(self).cooling_rate == old(self).cooling_rate,
    {
        let start_time = instant_now();
        let ghost mv = tsp.mat();
        let ghost nn = tsp.n();
        let n = tsp.dimension;
        self.history = Vec::new();
        let initial_temperature = self.temperature;
        let seed = nearest_neighbor_order(&tsp.distance_matrix);
        let mut current = Route::new(seed, &tsp.distance_matrix);
        self.best_route = current.clone();
        let moves_per_temp = n * 2;
        while self.temperature > self.min_temperature
            invariant
                tsp.wf(),
                mv == tsp.mat(),
                nn == tsp.n(),
                2 <= nn,
                n == tsp.dimension,
                moves_per_temp == n * 2,
                route_ok(current, mv, nn),
                route_ok(self.best_route, mv, nn),
                self.best_route.distance <= current.distance,
                history_ok(self.history@, mv, nn),
                forall|k: int| 0 <= k < self.history@.len()
                    ==> self.best_route.distance <= (#[trigger] self.history@[k]).distance,
                self.temperature <= MAX_TEMP,
                self.temperature <= old(self).temperature,
                self.min_temperature == old(self).min_temperature,
                self.cooling_rate == old(self).cooling_rate,
                self.cooling_rate <= SCALE,
                old(self).temperature <= old(self).min_temperature
                    ==> self.history@.len() == 0,
                self.history@.len() == 0 ==> self.temperature == old(self).temperature,
                self.history@.len() > 0 ==> self.history@.last().cities@
                    == self.best_route.cities@ && self.history@.last().distance
                    == self.best_route.distance,
            decreases self.temperature,
        {
            let ghost temp_at_epoch_start = self.temperature;
            let best_at_epoch_start = self.best_route.distance;
            let mut trial: usize = 0;
            while trial < moves_per_temp
                invariant
                    tsp.wf(),
                    mv == tsp.mat(),
                    nn == tsp.n(),
                    2 <= nn,
                    route_ok(current, mv, nn),
                    route_ok(self.best_route, mv, nn),
                    self.best_route.distance <= current.distance,
                    history_ok(self.history@, mv, nn),
                    forall|k: int| 0 <= k < self.history@.len()
                        ==> self.best_route.distance <= (#[trigger] self.history@[k]).distance,
                    self.temperature == temp_at_epoch_start,
                    self.temperature >= 1,
                    self.temperature <= MAX_TEMP,
                    self.temperature <= old(self).temperature,
                    self.min_temperature == old(self).min_temperature,
                    self.cooling_rate == old(self).cooling_rate,
                    self.cooling_rate <= SCALE,
                decreases moves_per_temp - trial,
            {
                let share = swap_share(self.temperature, initial_temperature);
                let cand = current.random_move(share, &tsp.distance_matrix);
                let accept = if cand.distance <= current.distance {
                    true
                } else {
                    proof {
                        lemma_tour_dist_bounds(mv, cand.cities@, nn);
                        assert((nn as int) * (MAX_EDGE as int)
                            <= (MAX_DIM as int) * (MAX_EDGE as int)) by (nonlinear_arith)
                            requires nn <= MAX_DIM as nat;
                    }
                    let p = acceptance_probability(
                        cand.distance - current.distance,
                        self.temperature,
                    );
                    coin(p)
                };
                if accept {
                    current = cand;
                    if current.distance < self.best_route.distance {
                        self.best_route = current.clone();
                    }
                }
                trial = trial + 1;
            }
            self.history.push(self.best_route.clone());
            // Adaptive cooling: keep the configured rate after an epoch that
            // improved the best tour, cool twice as fast when stuck; the
            // clamp below keeps the temperature strictly decreasing either
            // way.
            let epoch_improved = self.best_route.distance < best_at_epoch_start;
            let rate = if epoch_improved {
                self.cooling_rate
            } else {
                if 2 * self.cooling_rate > SCALE {
                    SCALE
                } else {
                    2 * self.cooling_rate
                }
            };
            proof {
                assert((self.temperature as int) * ((SCALE - rate) as int)
                    <= 1_000_000_000_000int * 1000int) by (nonlinear_arith)
                    requires
                        0 <= self.temperature as int <= 1_000_000_000_000int,
                        0 <= (SCALE - rate) as int <= 1000int,
                ;
            }
            let cooled = self.temperature * (SCALE - rate) / SCALE;
            self.temperature = if cooled < self.temperature {
                cooled
            } else {
                self.temperature - 1
            };
        }
        self.run_time = elapsed_millis(&start_time);
    }

    fn get_history(&self) -> (h: Vec<Route>) {
        clone_routes(&self.history)
    }

    fn get_best_route(&self) -> (r: Route) {
        self.best_route.clone()
    }

    fn get_run_time(&self) -> (t: u64) {
        self.run_time
    }
}

} // verus!
