//! Permutation-space particle-swarm optimization.  A particle's velocity is
//! an explicit ordered sequence of index swaps: each iteration builds a
//! target tour by crossing the position with the personal and global bests,
//! derives the swap sequence that carries the position onto the target —
//! proved to reconstruct the target exactly, in fewer swaps than there are
//! cities — and applies it.

use vstd::prelude::*;
use crate::crossover::order_crossover;
use crate::dist::{mat_view, matrix_wf, tour_dist, lemma_tour_dist_bounds};
use crate::ext::{coin, elapsed_millis, instant_now, rand_below, rand_index};
use crate::local_search::{two_opt_full, two_opt_randomized};
use crate::perm::{apply_swaps, lemma_apply_swaps_snoc, lemma_perm_agree_on_prefix,
    lemma_perm_complete, lemma_seq_swap_is_perm, perm_contains, seq_swap, swaps_in_bounds,
    valid_perm};
use crate::tsplib::{clone_routes, copy_indices, greedy_tour, history_ok, identity_order,
    nearest_neighbor_order, route_ok, HeuristicAlgorithm, Route, TspLib};

verus! {

broadcast use crate::dist::lemma_mat_view_entry;

/// The fixed probability of the extra random-swap mutation on a target
/// tour, in `SCALE` units.
const MUTATION_RATE: u64 = 100;

/// Every this many iterations each particle's position is replaced by its
/// randomized 2-opt refinement.
const LOCAL_SEARCH_FREQ: usize = 10;

/// One particle: a position tour, the pending swap-sequence velocity, and
/// the personal best.
pub struct Particle {
    pub position: Vec<usize>,
    pub velocity: Vec<(usize, usize)>,
    pub best_position: Vec<usize>,
    pub best_fitness: u64,
}

/// `p` is a well-formed particle over `n` cities: both tours are
/// permutations and every pending swap stays in bounds.
pub open spec fn particle_ok(p: Particle, n: nat) -> bool {
    &&& valid_perm(p.position@, n)
    &&& valid_perm(p.best_position@, n)
    &&& swaps_in_bounds(p.velocity@, n)
}

impl Clone for Particle {
    /// A clone carries the same position, velocity and personal best.
    fn clone(&self) -> (r: Particle)
        ensures
            r.position@ == self.position@,
            r.velocity@ == self.velocity@,
            r.best_position@ == self.best_position@,
            r.best_fitness == self.best_fitness,
    {
        let mut velocity: Vec<(usize, usize)> = Vec::new();
        let vlen = self.velocity.len();
        for k in 0..vlen
            invariant
                vlen == self.velocity@.len(),
                velocity@.len() == k,
                forall|t: int| 0 <= t < k ==> velocity@[t] == self.velocity@[t],
        {
            velocity.push(self.velocity[k]);
        }
        proof {
            assert(velocity@ =~= self.velocity@);
        }
        Particle {
            position: copy_indices(&self.position),
            velocity,
            best_position: copy_indices(&self.best_position),
            best_fitness: self.best_fitness,
        }
    }
}

impl Particle {
    /// A particle at the identity tour with no pending velocity.
    pub fn new(num_cities: usize) -> (p: Particle)
        ensures
            particle_ok(p, num_cities as nat),
            p.position@.len() == num_cities,
            forall|k: int| 0 <= k < num_cities ==> p.position@[k] == k,
            p.best_position@ == p.position@,
            p.velocity@.len() == 0,
            p.best_fitness == u64::MAX,
    {
        let position = identity_order(num_cities);
        let best_position = copy_indices(&position);
        Particle { position, velocity: Vec::new(), best_position, best_fitness: u64::MAX }
    }

    /// Re-seeds the position with a greedy nearest-neighbour tour.
    fn initialize_nearest_neighbor(&mut self, distance_matrix: &Vec<Vec<u64>>)
        requires
            matrix_wf(mat_view(*distance_matrix), distance_matrix@.len() as nat),
            distance_matrix@.len() >= 1,
            particle_ok(*old(self), distance_matrix@.len() as nat),
        ensures
            particle_ok(*final(self), distance_matrix@.len() as nat),
            final(self).position@.len() == distance_matrix@.len(),
            greedy_tour(mat_view(*distance_matrix), final(self).position@),
            final(self).velocity@ == old(self).velocity@,
            final(self).best_position@ == old(self).best_position@,
            final(self).best_fitness == old(self).best_fitness,
    {
        self.position = nearest_neighbor_order(distance_matrix);
    }

    /// Adopts the current position as personal best when its fitness beats
    /// the best one seen.
    pub fn update_personal_best(&mut self, fitness: u64)
        requires
            particle_ok(*old(self), old(self).position@.len() as nat),
        ensures
            particle_ok(*final(self), old(self).position@.len() as nat),
            final(self).position@ == old(self).position@,
            final(self).velocity@ == old(self).velocity@,
            fitness < old(self).best_fitness ==> final(self).best_position@
                == old(self).position@ && final(self).best_fitness == fitness,
            fitness >= old(self).best_fitness ==> final(self).best_position@
                == old(self).best_position@ && final(self).best_fitness
                == old(self).best_fitness,
    {
        if fitness < self.best_fitness {
            self.best_fitness = fitness;
            self.best_position = copy_indices(&self.position);
        }
    }

    /// Order crossover of two tours with uniformly drawn cut points.
    fn crossover(&self, route1: &Vec<usize>, route2: &Vec<usize>) -> (child: Vec<usize>)
        requires
            route1@.len() >= 1,
            valid_perm(route1@, route1@.len() as nat),
            valid_perm(route2@, route1@.len() as nat),
        ensures
            valid_perm(child@, route1@.len() as nat),
    {
        let size = route1.len();
        let start = rand_index(size);
        let span = rand_below((size - start) as u64) as usize;
        let end = start + span;
        order_crossover(route1, route2, start, end + 1)
    }

    /// With probability `mutation_rate / SCALE`, exchanges two uniformly
    /// drawn positions of the tour.
    fn mutate(&self, route: &mut Vec<usize>, mutation_rate: u64)
        requires
            old(route)@.len() >= 1,
            valid_perm(old(route)@, old(route)@.len() as nat),
        ensures
            valid_perm(final(route)@, old(route)@.len() as nat),
            final(route)@.len() == old(route)@.len(),
    {
        let ghost nn = route@.len() as nat;
        if coin(mutation_rate) {
            let len = route.len();
            let i = rand_index(len);
            let j = rand_index(len);
            let ghost before = route@;
            let a = route[i];
            let b = route[j];
            route[i] = b;
            route[j] = a;
            proof {
                assert(route@ == seq_swap(before, i as int, j as int));
                lemma_seq_swap_is_perm(before, nn, i as int, j as int);
            }
        }
    }

    /// Builds the next target tour — inertia-weighted reuse of the pending
    /// swaps, then cognitive and social crossover, then mutation — and
    /// stores the swap sequence onto it as the new velocity.
    fn update_velocity(
        &mut self,
        cognitive_weight: u64,
        social_weight: u64,
        inertia_weight: u64,
        global_best_position: &Vec<usize>,
    )
        requires
            old(self).position@.len() >= 1,
            particle_ok(*old(self), old(self).position@.len() as nat),
            valid_perm(global_best_position@, old(self).position@.len() as nat),
        ensures
            particle_ok(*final(self), old(self).position@.len() as nat),
            final(self).position@ == old(self).position@,
            final(self).best_position@ == old(self).best_position@,
            final(self).best_fitness == old(self).best_fitness,
            valid_perm(
                apply_swaps(final(self).position@, final(self).velocity@),
                old(self).position@.len() as nat,
            ),
            apply_swaps(final(self).position@, final(self).velocity@).len()
                == old(self).position@.len(),
    {
        let ghost nn = self.position@.len() as nat;
        let mut new_route = copy_indices(&self.position);
        // Inertia: keep each pending swap with probability
        // `inertia_weight / SCALE`.
        let vlen = self.velocity.len();
        let mut k: usize = 0;
        while k < vlen
            invariant
                vlen == self.velocity@.len(),
                particle_ok(*self, nn),
                k <= vlen,
                valid_perm(new_route@, nn),
            decreases vlen - k,
        {
            let (i, j) = self.velocity[k];
            if coin(inertia_weight) {
                let ghost before = new_route@;
                let a = new_route[i];
                let b = new_route[j];
                new_route[i] = b;
                new_route[j] = a;
                proof {
                    assert(new_route@ == seq_swap(before, i as int, j as int));
                    lemma_seq_swap_is_perm(before, nn, i as int, j as int);
                }
            }
            k = k + 1;
        }
        // Cognitive and social movement.
        if coin(cognitive_weight) {
            new_route = self.crossover(&new_route, &self.best_position);
        }
        if coin(social_weight) {
            new_route = self.crossover(&new_route, global_best_position);
        }
        self.mutate(&mut new_route, MUTATION_RATE);
        self.velocity = self.get_swap_sequence(&new_route);
    }

    /// The swap sequence that carries the current position onto `to_route`:
    /// scanning left to right, each misplaced city is swapped into place
    /// from further right.  Applying the sequence to the position yields
    /// exactly `to_route`, and it never needs more than `n - 1` swaps.
    pub fn get_swap_sequence(&self, to_route: &Vec<usize>) -> (swaps: Vec<(usize, usize)>)
        requires
            self.position@.len() >= 1,
            valid_perm(self.position@, self.position@.len() as nat),
            valid_perm(to_route@, self.position@.len() as nat),
        ensures
            swaps@.len() <= self.position@.len() - 1,
            swaps_in_bounds(swaps@, self.position@.len() as nat),
            apply_swaps(self.position@, swaps@) == to_route@,
    {
        let n = self.position.len();
        let ghost nn = n as nat;
        let mut from = copy_indices(&self.position);
        let mut swaps: Vec<(usize, usize)> = Vec::new();
        let mut i: usize = 0;
        while i < n - 1
            invariant
                nn == n as nat,
                n == self.position@.len(),
                n >= 1,
                valid_perm(self.position@, nn),
                valid_perm(to_route@, nn),
                valid_perm(from@, nn),
                i <= n - 1,
                forall|k: int| 0 <= k < i ==> (#[trigger] from@[k]) == to_route@[k],
                swaps@.len() <= i,
                swaps_in_bounds(swaps@, nn),
                apply_swaps(self.position@, swaps@) == from@,
            decreases n - 1 - i,
        {
            if from[i] != to_route[i] {
                proof {
                    lemma_perm_complete(from@, nn);
                    assert(perm_contains(from@, to_route@[i as int]));
                    let jj = choose|jj: int| 0 <= jj < from@.len()
                        && from@[jj] == to_route@[i as int];
                    if jj < i {
                        assert(from@[jj] == to_route@[jj]);
                        assert(to_route@[jj] != to_route@[i as int]);
                        assert(false);
                    }
                    if jj == i {
                        assert(false);
                    }
                    assert(i < jj < n && from@[jj] == to_route@[i as int]);
                }
                let mut j: usize = i + 1;
                while from[j] != to_route[i]
                    invariant
                        nn == n as nat,
                        n == self.position@.len(),
                        valid_perm(from@, nn),
                        valid_perm(to_route@, nn),
                        i < j < n,
                        exists|jj: int| j <= jj < n && from@[jj] == to_route@[i as int],
                    decreases n - j,
                {
                    proof {
                        let jj = choose|jj: int| j <= jj < n && from@[jj] == to_route@[i as int];
                        assert(jj > j);
                    }
                    j = j + 1;
                }
                let a = from[i];
                let b = from[j];
                let ghost before = from@;
                let ghost old_swaps = swaps@;
                from[i] = b;
                from[j] = a;
                swaps.push((i, j));
                proof {
                    assert(from@ == seq_swap(before, i as int, j as int));
                    lemma_seq_swap_is_perm(before, nn, i as int, j as int);
                    lemma_apply_swaps_snoc(self.position@, old_swaps, (i, j));
                    assert(swaps@ =~= old_swaps.push((i, j)));
                }
            }
            i = i + 1;
        }
        proof {
            lemma_perm_agree_on_prefix(from@, to_route@, nn);
        }
        swaps
    }

    /// Advances the position by performing the pending swaps in order.
    pub fn apply_velocity(&mut self)
        requires
            particle_ok(*old(self), old(self).position@.len() as nat),
        ensures
            particle_ok(*final(self), old(self).position@.len() as nat),
            final(self).position@ == apply_swaps(old(self).position@, old(self).velocity@),
            final(self).velocity@ == old(self).velocity@,
            final(self).best_position@ == old(self).best_position@,
            final(self).best_fitness == old(self).best_fitness,
    {
        let ghost nn = self.position@.len() as nat;
        let ghost orig = self.position@;
        let vlen = self.velocity.len();
        let mut k: usize = 0;
        while k < vlen
            invariant
                vlen == self.velocity@.len(),
                self.velocity@ == old(self).velocity@,
                self.best_position@ == old(self).best_position@,
                self.best_fitness == old(self).best_fitness,
                orig == old(self).position@,
                nn == orig.len() as nat,
                particle_ok(*old(self), nn),
                k <= vlen,
                valid_perm(self.position@, nn),
                self.position@ == apply_swaps(orig, self.velocity@.take(k as int)),
            decreases vlen - k,
        {
            let (i, j) = self.velocity[k];
            let ghost before = self.position@;
            let a = self.position[i];
            let b = self.position[j];
            self.position[i] = b;
            self.position[j] = a;
            proof {
                assert(self.position@ == seq_swap(before, i as int, j as int));
                lemma_seq_swap_is_perm(before, nn, i as int, j as int);
                lemma_apply_swaps_snoc(orig, self.velocity@.take(k as int), self.velocity@[k as int]);
                assert(self.velocity@.take(k as int).push(self.velocity@[k as int])
                    =~= self.velocity@.take(k as int + 1));
            }
            k = k + 1;
        }
        proof {
            assert(self.velocity@.take(vlen as int) =~= self.velocity@);
        }
    }
}

/// The cyclic length of a tour under the distance matrix — the fitness the
/// swarm minimises.
pub fn calculate_fitness(route: &Vec<usize>, distance_matrix: &Vec<Vec<u64>>) -> (d: u64)
    requires
        matrix_wf(mat_view(*distance_matrix), distance_matrix@.len() as nat),
        forall|k: int| 0 <= k < route@.len() ==> (#[trigger] route@[k]) < distance_matrix@.len(),
        2 <= route@.len() <= distance_matrix@.len(),
    ensures
        d as int == tour_dist(mat_view(*distance_matrix), route@),
{
    Route::calculate_distance(route, distance_matrix)
}

/// Permutation-space particle-swarm optimization over a shared TSP
/// instance.  The three weights are probabilities in `SCALE` units; a
/// weight at or above `SCALE` always fires.
pub struct ParticleSwarmOptimization {
    pub history: Vec<Route>,
    pub best_route: Route,
    pub run_time: u64,
    pub particles: Vec<Particle>,
    pub global_best_position: Vec<usize>,
    pub global_best_fitness: u64,
    pub max_iterations: usize,
    pub cognitive_weight: u64,
    pub social_weight: u64,
    pub inertia_weight: u64,
}

impl ParticleSwarmOptimization {
    /// A swarm of `num_particles` nearest-neighbour-seeded particles.
    pub fn new(
        tsp: &TspLib,
        num_particles: usize,
        max_iterations: usize,
        cognitive_weight: u64,
        social_weight: u64,
        inertia_weight: u64,
    ) -> (r: ParticleSwarmOptimization)
        requires
            tsp.wf(),
            tsp.dimension >= 2,
        ensures
            r.ready(tsp),
            r.history_view().len() == 0,
            r.run_time == 0,
            route_ok(r.best_view(), tsp.mat(), tsp.n()),
            r.particles@.len() == num_particles,
            r.max_iterations == max_iterations,
            r.global_best_fitness == u64::MAX,
            forall|k: int| 0 <= k < tsp.dimension ==> r.global_best_position@[k] == k,
            forall|k: int| 0 <= k < num_particles
                ==> (#[trigger] r.particles@[k]).best_fitness == u64::MAX
                    && greedy_tour(tsp.mat(), r.particles@[k].position@),
    {
        let num_cities = tsp.dimension;
        let mut particles: Vec<Particle> = Vec::new();
        let mut p: usize = 0;
        while p < num_particles
            invariant
                tsp.wf(),
                num_cities == tsp.dimension,
                2 <= tsp.dimension,
                p <= num_particles,
                particles@.len() == p,
                forall|k: int| 0 <= k < p
                    ==> particle_ok(#[trigger] particles@[k], tsp.n())
                        && particles@[k].position@.len() == tsp.n()
                        && particles@[k].best_fitness == u64::MAX
                        && greedy_tour(tsp.mat(), particles@[k].position@),
            decreases num_particles - p,
        {
            let mut particle = Particle::new(num_cities);
            particle.initialize_nearest_neighbor(&tsp.distance_matrix);
            particles.push(particle);
            p = p + 1;
        }
        let global_best_position = identity_order(num_cities);
        let order = identity_order(num_cities);
        ParticleSwarmOptimization {
            history: Vec::new(),
            best_route: Route::new(order, &tsp.distance_matrix),
            run_time: 0,
            particles,
            global_best_position,
            global_best_fitness: u64::MAX,
            max_iterations,
            cognitive_weight,
            social_weight,
            inertia_weight,
        }
    }
}

impl HeuristicAlgorithm for ParticleSwarmOptimization {
    open spec fn ready(&self, tsp: &TspLib) -> bool {
        &&& valid_perm(self.global_best_position@, tsp.n())
        &&& forall|k: int| 0 <= k < self.particles@.len()
            ==> particle_ok(#[trigger] self.particles@[k], tsp.n())
                && self.particles@[k].position@.len() == tsp.n()
    }

    open spec fn history_view(&self) -> Seq<Route> {
        self.history@
    }

    open spec fn best_view(&self) -> Route {
        self.best_route
    }

    open spec fn run_time_view(&self) -> u64 {
        self.run_time
    }

    fn solve(&mut self, tsp: &TspLib)
        ensures
            final(self).history_view().len() == old(self).max_iterations,
    {
        let start_time = instant_now();
        let ghost mv = tsp.mat();
        let ghost nn = tsp.n();
        let n = tsp.dimension;
        self.history = Vec::new();
        self.global_best_fitness = u64::MAX;
        let ghost iters0 = self.max_iterations;
        let num_particles = self.particles.len();

        // Initial evaluation: personal bests and the global best.
        let mut p: usize = 0;
        while p < num_particles
            invariant
                tsp.wf(),
                mv == tsp.mat(),
                nn == tsp.n(),
                2 <= nn,
                num_particles == self.particles@.len(),
                p <= num_particles,
                valid_perm(self.global_best_position@, nn),
                forall|k: int| 0 <= k < self.particles@.len()
                    ==> particle_ok(#[trigger] self.particles@[k], nn)
                        && self.particles@[k].position@.len() == nn,
                p == 0 ==> self.global_best_fitness == u64::MAX,
                p >= 1 ==> self.global_best_fitness as int
                    == tour_dist(mv, self.global_best_position@),
                self.max_iterations == iters0,
                self.history@.len() == 0,
            decreases num_particles - p,
        {
            let mut particle = self.particles[p].clone();
            let fitness = calculate_fitness(&particle.position, &tsp.distance_matrix);
            proof {
                lemma_tour_dist_bounds(mv, particle.position@, nn);
                assert((nn as int) * (crate::MAX_EDGE as int)
                    <= (crate::MAX_DIM as int) * (crate::MAX_EDGE as int)) by (nonlinear_arith)
                    requires nn <= crate::MAX_DIM as nat;
            }
            particle.update_personal_best(fitness);
            if fitness < self.global_best_fitness {
                self.global_best_fitness = fitness;
                self.global_best_position = copy_indices(&particle.position);
            }
            self.particles[p] = particle;
            p = p + 1;
        }

        // Main iterations.
        let mut iteration: usize = 0;
        while iteration < self.max_iterations
            invariant
                tsp.wf(),
                mv == tsp.mat(),
                nn == tsp.n(),
                2 <= nn,
                n == tsp.dimension,
                self.max_iterations == iters0,
                iters0 == old(self).max_iterations,
                iteration <= iters0,
                self.history@.len() == iteration,
                num_particles == self.particles@.len(),
                valid_perm(self.global_best_position@, nn),
                num_particles >= 1 ==> self.global_best_fitness as int
                    == tour_dist(mv, self.global_best_position@),
                forall|k: int| 0 <= k < self.particles@.len()
                    ==> particle_ok(#[trigger] self.particles@[k], nn)
                        && self.particles@[k].position@.len() == nn,
                history_ok(self.history@, mv, nn),
                forall|k: int| 0 <= k < self.history@.len()
                    ==> (#[trigger] self.history@[k]).distance as int
                        >= tour_dist(mv, self.global_best_position@),
            decreases iters0 - iteration,
        {
            let mut p2: usize = 0;
            while p2 < num_particles
                invariant
                    tsp.wf(),
                    mv == tsp.mat(),
                    nn == tsp.n(),
                    2 <= nn,
                    n == tsp.dimension,
                    self.max_iterations == iters0,
                    self.history@.len() == iteration,
                    num_particles == self.particles@.len(),
                    p2 <= num_particles,
                    valid_perm(self.global_best_position@, nn),
                    num_particles >= 1 ==> self.global_best_fitness as int
                        == tour_dist(mv, self.global_best_position@),
                    forall|k: int| 0 <= k < self.particles@.len()
                        ==> particle_ok(#[trigger] self.particles@[k], nn)
                            && self.particles@[k].position@.len() == nn,
                    history_ok(self.history@, mv, nn),
                    forall|k: int| 0 <= k < self.history@.len()
                        ==> (#[trigger] self.history@[k]).distance as int
                            >= tour_dist(mv, self.global_best_position@),
                decreases num_particles - p2,
            {
                let mut particle = self.particles[p2].clone();
                particle.update_velocity(
                    self.cognitive_weight,
                    self.social_weight,
                    self.inertia_weight,
                    &self.global_best_position,
                );
                particle.apply_velocity();
                if iteration % LOCAL_SEARCH_FREQ == 0 {
                    let refined = two_opt_randomized(&particle.position, &tsp.distance_matrix, n);
                    particle.position = refined.cities;
                }
                let fitness = calculate_fitness(&particle.position, &tsp.distance_matrix);
                particle.update_personal_best(fitness);
                if fitness < self.global_best_fitness {
                    self.global_best_fitness = fitness;
                    self.global_best_position = copy_indices(&particle.position);
                }
                self.particles[p2] = particle;
                p2 = p2 + 1;
            }
            let entry_order = copy_indices(&self.global_best_position);
            let entry = Route::new(entry_order, &tsp.distance_matrix);
            self.history.push(entry);
            iteration = iteration + 1;
        }

        // Final step: recompute the global best fitness and give the global
        // best one thorough 2-opt pass before reporting it.
        self.global_best_fitness = calculate_fitness(
            &self.global_best_position,
            &tsp.distance_matrix,
        );
        self.best_route = two_opt_full(&self.global_best_position, &tsp.distance_matrix);
        self.run_time = elapsed_millis(&start_time);
    }

    fn get_history(&self) -> (h: Vec<Route>) {
        clone_routes(&self.history)
    }

    fn get_best_route(&self) -> (r: Route) {
        self.best_route.clone()
    }

    fn get_run_time(&self) -> (t: u64) {
        self.run_time
    }
}

} // verus!
