//! The genetic algorithm: a population of tours evolved by elitism,
//! tournament selection, order crossover and probability-gated mutation.
//! Every chromosome in every generation is proved to stay a valid tour, and
//! an elite at least as large as the population is proved to freeze
//! evolution instead of crashing.

use vstd::prelude::*;
use crate::crossover::order_crossover;
use crate::dist::{mat_view, matrix_wf, tour_dist};
use crate::ext::{coin, elapsed_millis, instant_now, rand_index, shuffle};
use crate::local_search::{local_opt, two_opt_full};
use crate::perm::{lemma_multiset_perm, lemma_perm_complete, lemma_seq_swap_is_perm, perm_contains,
    seq_swap, valid_perm};
use crate::tsplib::{clone_routes, copy_indices, greedy_tour, history_ok, identity_order,
    nearest_neighbor_order, route_ok, HeuristicAlgorithm, Route, TspLib};

verus! {

broadcast use crate::dist::lemma_mat_view_entry;

/// The tournament width of the selection operator.
const TOURNAMENT_SIZE: usize = 5;

/// One individual: a tour and its cached cyclic length.
pub struct Chromosome {
    pub route: Vec<usize>,
    pub distance: u64,
}

/// `c` is a well-formed individual over the `n`-city matrix `m`.
pub open spec fn chrom_ok(c: Chromosome, m: Seq<Seq<u64>>, n: nat) -> bool {
    &&& valid_perm(c.route@, n)
    &&& c.distance as int == tour_dist(m, c.route@)
}

impl Clone for Chromosome {
    /// A clone carries the same tour and the same cached distance.
    fn clone(&self) -> (r: Chromosome)
        ensures
            r.route@ == self.route@,
            r.distance == self.distance,
    {
        Chromosome { route: copy_indices(&self.route), distance: self.distance }
    }
}

impl Chromosome {
    /// An individual with the given tour — or a uniformly shuffled one when
    /// none is given — and its freshly computed distance.
    pub fn new(route: Option<Vec<usize>>, distance_matrix: &Vec<Vec<u64>>) -> (c: Chromosome)
        requires
            matrix_wf(mat_view(*distance_matrix), distance_matrix@.len() as nat),
            distance_matrix@.len() >= 2,
            route matches Some(r) ==> valid_perm(r@, distance_matrix@.len() as nat),
        ensures
            chrom_ok(c, mat_view(*distance_matrix), distance_matrix@.len() as nat),
            route matches Some(r) ==> c.route@ == r@,
    {
        let r = match route {
            Some(r) => r,
            None => Self::random_route(distance_matrix.len()),
        };
        let distance = Self::calculate_distance(&r, distance_matrix);
        Chromosome { route: r, distance }
    }

    /// A uniformly shuffled tour over `size` cities.
    fn random_route(size: usize) -> (r: Vec<usize>)
        ensures
            valid_perm(r@, size as nat),
    {
        let mut route = identity_order(size);
        let ghost id = route@;
        shuffle(&mut route);
        proof {
            lemma_multiset_perm(id, route@, size as nat);
        }
        route
    }

    /// The cyclic length of `route` under the distance matrix.
    pub fn calculate_distance(route: &Vec<usize>, distance_matrix: &Vec<Vec<u64>>) -> (d: u64)
        requires
            matrix_wf(mat_view(*distance_matrix), distance_matrix@.len() as nat),
            forall|k: int| 0 <= k < route@.len()
                ==> (#[trigger] route@[k]) < distance_matrix@.len(),
            2 <= route@.len() <= distance_matrix@.len(),
        ensures
            d as int == tour_dist(mat_view(*distance_matrix), route@),
    {
        Route::calculate_distance(route, distance_matrix)
    }

    /// The greedy nearest-neighbour seed tour.
    fn nearest_neighbor_route(distance_matrix: &Vec<Vec<u64>>) -> (r: Vec<usize>)
        requires
            matrix_wf(mat_view(*distance_matrix), distance_matrix@.len() as nat),
            distance_matrix@.len() >= 1,
        ensures
            valid_perm(r@, distance_matrix@.len() as nat),
            greedy_tour(mat_view(*distance_matrix), r@),
    {
        nearest_neighbor_order(distance_matrix)
    }

    /// Order crossover with two uniformly drawn distinct cut points.
    fn crossover(&self, other: &Chromosome, distance_matrix: &Vec<Vec<u64>>) -> (c: Chromosome)
        requires
            matrix_wf(mat_view(*distance_matrix), distance_matrix@.len() as nat),
            distance_matrix@.len() >= 2,
            chrom_ok(*self, mat_view(*distance_matrix), distance_matrix@.len() as nat),
            chrom_ok(*other, mat_view(*distance_matrix), distance_matrix@.len() as nat),
        ensures
            chrom_ok(c, mat_view(*distance_matrix), distance_matrix@.len() as nat),
    {
        let n = self.route.len();
        // two distinct cut points, without a retry loop: draw the second
        // from one fewer value and step it over the first
        let i1 = rand_index(n);
        let r2 = rand_index(n - 1);
        let i2 = if r2 >= i1 {
            r2 + 1
        } else {
            r2
        };
        let (left, right) = if i1 < i2 {
            (i1, i2)
        } else {
            (i2, i1)
        };
        let child = order_crossover(&self.route, &other.route, left, right);
        Chromosome::new(Some(child), distance_matrix)
    }

    /// Exhaustive 2-opt refinement in place; reports whether the tour
    /// improved.  An already locally optimal tour is left untouched, so
    /// re-running the refinement on its own output reports no improvement.
    pub fn apply_2opt(&mut self, distance_matrix: &Vec<Vec<u64>>) -> (improved: bool)
        requires
            matrix_wf(mat_view(*distance_matrix), distance_matrix@.len() as nat),
            distance_matrix@.len() >= 2,
            chrom_ok(*old(self), mat_view(*distance_matrix), distance_matrix@.len() as nat),
        ensures
            chrom_ok(*final(self), mat_view(*distance_matrix), distance_matrix@.len() as nat),
            final(self).distance <= old(self).distance,
            local_opt(mat_view(*distance_matrix), final(self).route@),
            improved <==> final(self).distance < old(self).distance,
            !improved ==> final(self).route@ == old(self).route@,
            local_opt(mat_view(*distance_matrix), old(self).route@)
                ==> final(self).route@ == old(self).route@,
    {
        let refined = two_opt_full(&self.route, distance_matrix);
        let improved = refined.distance < self.distance;
        self.route = refined.cities;
        self.distance = refined.distance;
        improved
    }

    /// Probability-gated mutation: full 2-opt refinement, then a random
    /// position swap, each with probability `mutation_probability / SCALE`.
    fn mutate(&mut self, mutation_probability: u64, distance_matrix: &Vec<Vec<u64>>)
        requires
            matrix_wf(mat_view(*distance_matrix), distance_matrix@.len() as nat),
            distance_matrix@.len() >= 2,
            chrom_ok(*old(self), mat_view(*distance_matrix), distance_matrix@.len() as nat),
        ensures
            chrom_ok(*final(self), mat_view(*distance_matrix), distance_matrix@.len() as nat),
    {
        let ghost nn = distance_matrix@.len() as nat;
        if coin(mutation_probability) {
            self.apply_2opt(distance_matrix);
        }
        if coin(mutation_probability) {
            let len = self.route.len();
            let i = rand_index(len);
            let j = rand_index(len);
            let ghost before = self.route@;
            let a = self.route[i];
            let b = self.route[j];
            self.route[i] = b;
            self.route[j] = a;
            proof {
                assert(self.route@ == seq_swap(before, i as int, j as int));
                lemma_seq_swap_is_perm(before, nn, i as int, j as int);
            }
            self.distance = Route::calculate_distance(&self.route, distance_matrix);
        }
    }
}

/// `a[i]` and `b[j]` are the same individual: the same tour with the same
/// cached distance.
pub open spec fn chroms_match_at(a: Seq<Chromosome>, b: Seq<Chromosome>, i: int, j: int) -> bool {
    a[i].route@ == b[j].route@ && a[i].distance == b[j].distance
}

/// `a[k]` is one of `b`'s individuals.
pub open spec fn chrom_from(a: Seq<Chromosome>, b: Seq<Chromosome>, k: int) -> bool {
    exists|j: int| 0 <= j < b.len() && chroms_match_at(a, b, k, j)
}

/// `b[j]` still appears somewhere in `a`.
pub open spec fn chrom_kept(a: Seq<Chromosome>, b: Seq<Chromosome>, j: int) -> bool {
    exists|k: int| 0 <= k < a.len() && chroms_match_at(a, b, k, j)
}

/// `c` is one of `pop`'s individuals: the same tour with the same cached
/// distance as some member.
pub open spec fn chrom_in(c: Chromosome, pop: Seq<Chromosome>) -> bool {
    exists|j: int| 0 <= j < pop.len() && c.route@ == pop[j].route@
        && c.distance == pop[j].distance
}

/// A rearrangement of well-formed individuals is made of well-formed
/// individuals.
proof fn lemma_rearranged_ok(a: Seq<Chromosome>, b: Seq<Chromosome>, m: Seq<Seq<u64>>, n: nat)
    requires
        forall|j: int| 0 <= j < b.len() ==> chrom_ok(#[trigger] b[j], m, n),
        a.len() == b.len(),
        forall|k: int| 0 <= k < a.len() ==> #[trigger] chrom_from(a, b, k),
    ensures
        forall|k: int| 0 <= k < a.len() ==> chrom_ok(#[trigger] a[k], m, n),
{
    assert forall|k: int| 0 <= k < a.len() implies chrom_ok(#[trigger] a[k], m, n) by {
        assert(chrom_from(a, b, k));
        let j = choose|j: int| 0 <= j < b.len() && chroms_match_at(a, b, k, j);
        assert(chrom_ok(b[j], m, n));
    }
}

/// The distance key that orders the population.
spec fn sort_key(pop: Seq<Chromosome>, idx: Seq<usize>, k: int) -> int {
    pop[idx[k] as int].distance as int
}

/// The population sorted ascending by cached distance: a rearrangement —
/// every output individual is an input one and the other way round — that
/// is sorted by distance.
fn sort_population(population: &Vec<Chromosome>) -> (r: Vec<Chromosome>)
    ensures
        r@.len() == population@.len(),
        forall|k1: int, k2: int| 0 <= k1 <= k2 < r@.len()
            ==> (#[trigger] r@[k1]).distance <= (#[trigger] r@[k2]).distance,
        forall|k: int| 0 <= k < r@.len() ==> #[trigger] chrom_from(r@, population@, k),
        forall|j: int| 0 <= j < r@.len() ==> #[trigger] chrom_kept(r@, population@, j),
{
    let len = population.len();
    let mut idx = identity_order(len);
    let mut i: usize = 1;
    while i < len
        invariant
            len == population@.len(),
            valid_perm(idx@, len as nat),
            1 <= i <= len || len == 0,
            forall|a: int, b: int| 0 <= a < b < i
                ==> sort_key(population@, idx@, a) <= sort_key(population@, idx@, b),
        decreases len - i,
    {
        let mut j: usize = i;
        while j > 0 && population[idx[j - 1]].distance > population[idx[j]].distance
            invariant
                len == population@.len(),
                valid_perm(idx@, len as nat),
                0 <= j <= i < len,
                forall|a: int, b: int| 0 <= a < b <= i && b != j
                    ==> sort_key(population@, idx@, a) <= sort_key(population@, idx@, b),
            decreases j,
        {
            let x = idx[j - 1];
            let y = idx[j];
            let ghost before = idx@;
            idx[j - 1] = y;
            idx[j] = x;
            proof {
                assert(idx@ == seq_swap(before, j - 1, j as int));
                lemma_seq_swap_is_perm(before, len as nat, j - 1, j as int);
                assert forall|a: int, b: int| 0 <= a < b <= i && b != j - 1 implies
                    sort_key(population@, idx@, a) <= sort_key(population@, idx@, b) by {
                    if b == j {
                        if a != j - 1 {
                            assert(sort_key(population@, before, a)
                                <= sort_key(population@, before, j - 1));
                        }
                    } else if a == j - 1 {
                        assert(sort_key(population@, before, j as int)
                            <= sort_key(population@, before, b));
                    } else if a == j {
                        assert(sort_key(population@, before, j - 1)
                            <= sort_key(population@, before, b));
                    } else {
                        assert(sort_key(population@, before, a)
                            <= sort_key(population@, before, b));
                    }
                }
            }
            j = j - 1;
        }
        proof {
            assert forall|a: int, b: int| 0 <= a < b <= i implies
                sort_key(population@, idx@, a) <= sort_key(population@, idx@, b) by {
                if b == j && j > 0 {
                    assert(sort_key(population@, idx@, j - 1)
                        <= sort_key(population@, idx@, j as int));
                    if a < j - 1 {
                        assert(sort_key(population@, idx@, a)
                            <= sort_key(population@, idx@, j - 1));
                    }
                }
            }
        }
        i = i + 1;
    }
    let mut r: Vec<Chromosome> = Vec::new();
    let mut k: usize = 0;
    while k < len
        invariant
            len == population@.len(),
            valid_perm(idx@, len as nat),
            forall|a: int, b: int| 0 <= a < b < len
                ==> sort_key(population@, idx@, a) <= sort_key(population@, idx@, b),
            k <= len,
            r@.len() == k,
            forall|p: int| 0 <= p < k
                ==> chroms_match_at(r@, population@, p, (#[trigger] idx@[p]) as int),
        decreases len - k,
    {
        let c = population[idx[k]].clone();
        r.push(c);
        k = k + 1;
    }
    proof {
        assert forall|k1: int, k2: int| 0 <= k1 <= k2 < r@.len()
            implies (#[trigger] r@[k1]).distance <= (#[trigger] r@[k2]).distance by {
            if k1 < k2 {
                assert(sort_key(population@, idx@, k1) <= sort_key(population@, idx@, k2));
            }
        }
        assert forall|k: int| 0 <= k < r@.len()
            implies #[trigger] chrom_from(r@, population@, k) by {
            assert(chroms_match_at(r@, population@, k, idx@[k] as int));
        }
        lemma_perm_complete(idx@, len as nat);
        assert forall|j: int| 0 <= j < r@.len()
            implies #[trigger] chrom_kept(r@, population@, j) by {
            assert(perm_contains(idx@, j as usize));
            let k = choose|k: int| 0 <= k < idx@.len() && idx@[k] == j as usize;
            assert(chroms_match_at(r@, population@, k, j));
        }
    }
    r
}

/// The genetic algorithm over a shared TSP instance.  The mutation
/// probability is a fixed-point number in `SCALE` units.
pub struct GeneticAlgorithm {
    pub history: Vec<Route>,
    pub best_route: Route,
    pub run_time: u64,
    pub population_size: usize,
    pub number_of_generations: usize,
    pub mutation_probability: u64,
    pub elite_size: usize,
}

impl GeneticAlgorithm {
    /// A solver with the given parameters, its best tour seeded with the
    /// identity tour of the instance.
    pub fn new(
        tsp: &TspLib,
        population_size: usize,
        number_of_generations: usize,
        mutation_probability: u64,
        elite_size: usize,
    ) -> (r: GeneticAlgorithm)
        requires
            tsp.wf(),
            tsp.dimension >= 2,
            population_size >= 1,
        ensures
            r.ready(tsp),
            r.history_view().len() == 0,
            r.run_time == 0,
            route_ok(r.best_view(), tsp.mat(), tsp.n()),
            r.population_size == population_size,
            r.number_of_generations == number_of_generations,
            r.elite_size == elite_size,
    {
        let order = identity_order(tsp.dimension);
        GeneticAlgorithm {
            history: Vec::new(),
            best_route: Route::new(order, &tsp.distance_matrix),
            run_time: 0,
            population_size,
            number_of_generations,
            mutation_probability,
            elite_size,
        }
    }

    /// Tournament selection: the best of `TOURNAMENT_SIZE` uniformly drawn
    /// individuals; works down to a population of one.
    fn selection(&self, population: &Vec<Chromosome>, tsp: &TspLib) -> (c: Chromosome)
        requires
            tsp.wf(),
            population@.len() >= 1,
            forall|k: int| 0 <= k < population@.len()
                ==> chrom_ok(#[trigger] population@[k], tsp.mat(), tsp.n()),
        ensures
            chrom_ok(c, tsp.mat(), tsp.n()),
            chrom_in(c, population@),
    {
        let len = population.len();
        let pick0 = rand_index(len);
        let mut best = population[pick0].clone();
        let ghost mut best_at: int = pick0 as int;
        let mut t: usize = 1;
        while t < TOURNAMENT_SIZE
            invariant
                tsp.wf(),
                len == population@.len(),
                len >= 1,
                forall|k: int| 0 <= k < population@.len()
                    ==> chrom_ok(#[trigger] population@[k], tsp.mat(), tsp.n()),
                chrom_ok(best, tsp.mat(), tsp.n()),
                0 <= best_at < len,
                best.route@ == population@[best_at].route@,
                best.distance == population@[best_at].distance,
            decreases TOURNAMENT_SIZE - t,
        {
            let pick = rand_index(len);
            if population[pick].distance < best.distance {
                best = population[pick].clone();
                proof {
                    best_at = pick as int;
                }
            }
            t = t + 1;
        }
        best
    }

    /// One generation step on an already sorted population: the best
    /// `elite_size` individuals survive unchanged and the remaining slots
    /// are refilled by selection, crossover and mutation.  An elite at
    /// least as large as the population reproduces it verbatim — no
    /// evolution, and no crash on the empty fill.
    pub fn next_generation(&self, population: &Vec<Chromosome>, tsp: &TspLib) -> (next: Vec<
        Chromosome,
    >)
        requires
            tsp.wf(),
            tsp.dimension >= 2,
            population@.len() == self.population_size,
            self.population_size >= 1,
            forall|k: int| 0 <= k < population@.len()
                ==> chrom_ok(#[trigger] population@[k], tsp.mat(), tsp.n()),
        ensures
            next@.len() == self.population_size,
            forall|k: int| 0 <= k < next@.len()
                ==> chrom_ok(#[trigger] next@[k], tsp.mat(), tsp.n()),
            forall|k: int| 0 <= k < self.elite_size && k < self.population_size
                ==> chroms_match_at(next@, population@, k, k),
            self.elite_size >= self.population_size
                ==> forall|k: int| 0 <= k < next@.len()
                    ==> chroms_match_at(next@, population@, k, k),
    {
        let len = population.len();
        let e = if self.elite_size < len {
            self.elite_size
        } else {
            len
        };
        let mut next: Vec<Chromosome> = Vec::new();
        let mut t: usize = 0;
        while t < e
            invariant
                tsp.wf(),
                tsp.dimension >= 2,
                len == population@.len(),
                e <= len,
                t <= e,
                next@.len() == t,
                forall|k: int| 0 <= k < population@.len()
                    ==> chrom_ok(#[trigger] population@[k], tsp.mat(), tsp.n()),
                forall|k: int| 0 <= k < t ==> chroms_match_at(next@, population@, k, k),
                forall|k: int| 0 <= k < t ==> chrom_ok(#[trigger] next@[k], tsp.mat(), tsp.n()),
            decreases e - t,
        {
            let c = population[t].clone();
            let ghost old_next = next@;
            next.push(c);
            proof {
                assert forall|k: int| 0 <= k < t + 1 implies
                    chroms_match_at(next@, population@, k, k) by {
                    if k < t {
                        assert(next@[k] == old_next[k]);
                        assert(chroms_match_at(old_next, population@, k, k));
                    } else {
                        assert(next@[k] == c);
                    }
                }
            }
            t = t + 1;
        }
        while next.len() < self.population_size
            invariant
                tsp.wf(),
                tsp.dimension >= 2,
                len == population@.len(),
                len == self.population_size,
                len >= 1,
                e <= next@.len() <= self.population_size,
                forall|k: int| 0 <= k < population@.len()
                    ==> chrom_ok(#[trigger] population@[k], tsp.mat(), tsp.n()),
                forall|k: int| 0 <= k < e ==> chroms_match_at(next@, population@, k, k),
                forall|k: int| 0 <= k < next@.len()
                    ==> chrom_ok(#[trigger] next@[k], tsp.mat(), tsp.n()),
            decreases self.population_size - next@.len(),
        {
            let parent1 = self.selection(population, tsp);
            let parent2 = self.selection(population, tsp);
            let mut offspring = parent1.crossover(&parent2, &tsp.distance_matrix);
            offspring.mutate(self.mutation_probability, &tsp.distance_matrix);
            let ghost old_next = next@;
            next.push(offspring);
            proof {
                assert forall|k: int| 0 <= k < e implies
                    chroms_match_at(next@, population@, k, k) by {
                    assert(next@[k] == old_next[k]);
                    assert(chroms_match_at(old_next, population@, k, k));
                }
            }
        }
        next
    }
}

impl HeuristicAlgorithm for GeneticAlgorithm {
    open spec fn ready(&self, tsp: &TspLib) -> bool {
        self.population_size >= 1
    }

    open spec fn history_view(&self) -> Seq<Route> {
        self.history@
    }

    open spec fn best_view(&self) -> Route {
        self.best_route
    }

    open spec fn run_time_view(&self) -> u64 {
        self.run_time
    }

    fn solve(&mut self, tsp: &TspLib)
        ensures
            final(self).history_view().len() == old(self).number_of_generations,
            final(self).history_view().len() > 0 ==> {
                &&& final(self).history_view().last().cities@
                    == final(self).best_view().cities@
                &&& final(self).history_view().last().distance
                    == final(self).best_view().distance
            },
    {
        let start_time = instant_now();
        let ghost mv = tsp.mat();
        let ghost nn = tsp.n();
        self.history = Vec::new();
        let ghost gens0 = self.number_of_generations;
        let ghost psize0 = self.population_size;

        // Initial population: one nearest-neighbour seed, the rest random.
        let mut population: Vec<Chromosome> = Vec::new();
        let seed = Chromosome::nearest_neighbor_route(&tsp.distance_matrix);
        population.push(Chromosome::new(Some(seed), &tsp.distance_matrix));
        while population.len() < self.population_size
            invariant
                tsp.wf(),
                mv == tsp.mat(),
                nn == tsp.n(),
                2 <= nn,
                self.population_size == psize0,
                1 <= population@.len(),
                population@.len() <= self.population_size || population@.len() == 1,
                forall|k: int| 0 <= k < population@.len()
                    ==> chrom_ok(#[trigger] population@[k], mv, nn),
            decreases psize0 - population@.len(),
        {
            population.push(Chromosome::new(None, &tsp.distance_matrix));
        }
        let sorted0 = sort_population(&population);
        proof {
            assert(population@.len() == psize0);
            lemma_rearranged_ok(sorted0@, population@, mv, nn);
        }
        population = sorted0;

        self.best_route = Route::new(
            copy_indices(&population[0].route),
            &tsp.distance_matrix,
        );
        let mut generation: usize = 0;
        while generation < self.number_of_generations
            invariant
                tsp.wf(),
                mv == tsp.mat(),
                nn == tsp.n(),
                2 <= nn,
                self.population_size == psize0,
                self.number_of_generations == gens0,
                gens0 == old(self).number_of_generations,
                generation <= gens0,
                self.history@.len() == generation,
                self.history@.len() > 0 ==> self.history@.last().cities@
                    == self.best_route.cities@ && self.history@.last().distance
                    == self.best_route.distance,
                psize0 >= 1,
                population@.len() == psize0,
                forall|k: int| 0 <= k < population@.len()
                    ==> chrom_ok(#[trigger] population@[k], mv, nn),
                route_ok(self.best_route, mv, nn),
                history_ok(self.history@, mv, nn),
                forall|k: int| 0 <= k < self.history@.len()
                    ==> self.best_route.distance <= (#[trigger] self.history@[k]).distance,
            decreases gens0 - generation,
        {
            let sorted = sort_population(&population);
            proof {
                lemma_rearranged_ok(sorted@, population@, mv, nn);
            }
            let next = self.next_generation(&sorted, tsp);
            population = next;
            let resorted = sort_population(&population);
            proof {
                lemma_rearranged_ok(resorted@, population@, mv, nn);
            }
            population = resorted;
            let generation_best = Route::new(
                copy_indices(&population[0].route),
                &tsp.distance_matrix,
            );
            if generation_best.distance < self.best_route.distance {
                self.best_route = generation_best;
            }
            self.history.push(self.best_route.clone());
            generation = generation + 1;
        }
        self.run_time = elapsed_millis(&start_time);
    }

    fn get_history(&self) -> (h: Vec<Route>) {
        clone_routes(&self.history)
    }

    fn get_best_route(&self) -> (r: Route) {
        self.best_route.clone()
    }

    fn get_run_time(&self) -> (t: u64) {
        self.run_time
    }
}

} // verus!
