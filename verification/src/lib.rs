//! Verified metaheuristics for the Euclidean travelling-salesman problem.
//!
//! Four solver engines — ant-colony optimization, a genetic algorithm,
//! permutation-space particle-swarm optimization and simulated annealing —
//! share one tour representation, one rounded-integer distance model and one
//! 2-opt local-search primitive.  Every tour an engine hands back is proved to
//! be a permutation of the city indices with a cached length that matches the
//! distance model, and every recorded best-distance history is proved
//! non-increasing.
//!
//! The distance model is integral throughout: coordinates are integers and an
//! edge weighs the Euclidean distance rounded to the nearest integer, as the
//! distance matrix is built.  Probabilities, pheromone weights and
//! temperatures are fixed-point numbers scaled by [`SCALE`].

use vstd::prelude::*;

pub mod aco;
pub mod crossover;
pub mod dist;
pub mod ext;
pub mod ga;
pub mod local_search;
pub mod perm;
pub mod pso;
pub mod sa;
pub mod stats;
pub mod tsplib;

verus! {

/// Fixed-point unit: probabilities, pheromone weights, temperatures and
/// deposit factors are stored scaled by `SCALE` (a probability of 0.25 is
/// `250`; a pheromone weight of 1.0 is `1000`).
pub const SCALE: u64 = 1000;

/// Bound on the magnitude of a city coordinate accepted by the distance
/// model; it keeps every squared distance inside `i64` and every edge weight
/// below `MAX_EDGE`.
pub const MAX_COORD: i64 = 1_000_000;

/// Largest rounded Euclidean edge weight that bounded coordinates can
/// produce: `round(sqrt(8) * MAX_COORD)` is below `3_000_000`.
pub const MAX_EDGE: u64 = 3_000_000;

/// Largest instance dimension: keeps a whole tour length below
/// `MAX_DIM * MAX_EDGE`, far inside `u64`.
pub const MAX_DIM: usize = 100_000;

} // verus!
