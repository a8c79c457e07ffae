use tsp_heuristics::crossover::order_crossover;
use tsp_heuristics::local_search::two_opt_full;
use tsp_heuristics::pso::{calculate_fitness, Particle};
use tsp_heuristics::tsplib::{Route, TspLib};

fn square() -> TspLib {
    // four cities on a 10x10 square: the optimal cyclic tour weighs 40
    let cities: Vec<(i64, i64)> = vec![(0, 0), (0, 10), (10, 10), (10, 0)];
    TspLib::from_cities("square".to_string(), String::new(), cities).unwrap()
}

fn is_permutation(tour: &[usize], n: usize) -> bool {
    if tour.len() != n {
        return false;
    }
    let mut seen = vec![false; n];
    for &c in tour {
        if c >= n || seen[c] {
            return false;
        }
        seen[c] = true;
    }
    true
}

#[test]
fn distance_matrix_values() {
    let tsp = square();
    assert_eq!(tsp.dimension, 4);
    // adjacent sides weigh 10, diagonals round(sqrt(200)) = 14
    assert_eq!(tsp.distance_matrix[0][1], 10);
    assert_eq!(tsp.distance_matrix[1][2], 10);
    assert_eq!(tsp.distance_matrix[0][2], 14);
    assert_eq!(tsp.distance_matrix[1][3], 14);
    for i in 0..4 {
        assert_eq!(tsp.distance_matrix[i][i], 0);
        for j in 0..4 {
            assert_eq!(tsp.distance_matrix[i][j], tsp.distance_matrix[j][i]);
        }
    }
}

#[test]
fn rounded_euclidean_distance() {
    // sqrt(2) rounds down to 1, sqrt(8) rounds up to 3
    let near = TspLib::from_cities(String::new(), String::new(), vec![(0, 0), (1, 1)]).unwrap();
    assert_eq!(near.distance_matrix[0][1], 1);
    let far = TspLib::from_cities(String::new(), String::new(), vec![(0, 0), (2, 2)]).unwrap();
    assert_eq!(far.distance_matrix[0][1], 3);
}

#[test]
fn degenerate_instances_rejected() {
    assert!(TspLib::from_cities(String::new(), String::new(), vec![]).is_none());
    assert!(TspLib::from_cities(String::new(), String::new(), vec![(0, 0)]).is_none());
    assert!(
        TspLib::from_cities(String::new(), String::new(), vec![(0, 0), (2_000_000, 0)]).is_none()
    );
}

#[test]
fn route_distance_values() {
    let tsp = square();
    let best = Route::new(vec![0, 1, 2, 3], &tsp.distance_matrix);
    assert_eq!(best.distance, 40);
    let crossing = Route::new(vec![0, 2, 1, 3], &tsp.distance_matrix);
    assert_eq!(crossing.distance, 48);
}

#[test]
fn reversal_invariance() {
    let tsp = square();
    let tour = Route::new(vec![0, 2, 1, 3], &tsp.distance_matrix);
    let reversed = Route::new(vec![3, 1, 2, 0], &tsp.distance_matrix);
    assert_eq!(tour.distance, reversed.distance);
    let tour2 = Route::new(vec![1, 0, 3, 2], &tsp.distance_matrix);
    let reversed2 = Route::new(vec![2, 3, 0, 1], &tsp.distance_matrix);
    assert_eq!(tour2.distance, reversed2.distance);
}

#[test]
fn random_route_is_permutation() {
    let tsp = square();
    for _ in 0..20 {
        let r = Route::new_random(&tsp.distance_matrix);
        assert!(is_permutation(&r.cities, 4));
        assert_eq!(r.distance, Route::calculate_distance(&r.cities, &tsp.distance_matrix));
    }
}

#[test]
fn two_opt_uncrosses_the_square() {
    let tsp = square();
    let refined = two_opt_full(&vec![0, 2, 1, 3], &tsp.distance_matrix);
    assert_eq!(refined.distance, 40);
    assert!(is_permutation(&refined.cities, 4));
}

#[test]
fn two_opt_idempotent_at_local_optimum() {
    let tsp = square();
    let once = two_opt_full(&vec![0, 2, 1, 3], &tsp.distance_matrix);
    let twice = two_opt_full(&once.cities, &tsp.distance_matrix);
    assert_eq!(once.cities, twice.cities);
    assert_eq!(once.distance, twice.distance);
}

#[test]
fn two_opt_move_reverses_segment() {
    let tsp = square();
    let tour = Route::new(vec![0, 1, 2, 3], &tsp.distance_matrix);
    let moved = tour.two_opt_move(1, 3, &tsp.distance_matrix);
    assert_eq!(moved.cities, vec![0, 3, 2, 1]);
    // argument order does not matter
    let moved2 = tour.two_opt_move(3, 1, &tsp.distance_matrix);
    assert_eq!(moved2.cities, vec![0, 3, 2, 1]);
}

#[test]
fn swap_sequence_reaches_target() {
    let mut particle = Particle::new(6);
    let target: Vec<usize> = vec![2, 0, 5, 1, 4, 3];
    let swaps = particle.get_swap_sequence(&target);
    assert!(swaps.len() <= 5);
    particle.velocity = swaps;
    particle.apply_velocity();
    assert_eq!(particle.position, target);
}

#[test]
fn swap_sequence_of_identical_tours_is_empty() {
    let particle = Particle::new(5);
    let target: Vec<usize> = vec![0, 1, 2, 3, 4];
    let swaps = particle.get_swap_sequence(&target);
    assert!(swaps.is_empty());
}

#[test]
fn order_crossover_keeps_permutations() {
    let a: Vec<usize> = vec![3, 0, 4, 1, 5, 2, 6];
    let b: Vec<usize> = vec![6, 5, 4, 3, 2, 1, 0];
    for (left, right) in [(0usize, 1usize), (1, 4), (2, 7), (0, 7), (5, 6)] {
        let child = order_crossover(&a, &b, left, right);
        assert!(is_permutation(&child, 7));
        // the cut segment comes from the first parent verbatim
        assert_eq!(&child[left..right], &a[left..right]);
    }
}

#[test]
fn order_crossover_square_example() {
    let a: Vec<usize> = vec![0, 1, 2, 3];
    let b: Vec<usize> = vec![3, 2, 1, 0];
    // segment [1, 3) keeps 1 and 2; the remaining positions 3 then 0 fill
    // with b's cities read from position 3 on: first 0, then 3
    let child = order_crossover(&a, &b, 1, 3);
    assert_eq!(child, vec![3, 1, 2, 0]);
}

#[test]
fn fitness_matches_route_distance() {
    let tsp = square();
    let order: Vec<usize> = vec![1, 3, 0, 2];
    assert_eq!(
        calculate_fitness(&order, &tsp.distance_matrix),
        Route::calculate_distance(&order, &tsp.distance_matrix)
    );
}

#[test]
fn swap_sequence_between_random_tours() {
    let cities: Vec<(i64, i64)> = vec![(0, 0), (0, 10), (10, 10), (10, 0), (5, 20), (20, 5), (7, 3)];
    let tsp = TspLib::from_cities(String::new(), String::new(), cities).unwrap();
    for _ in 0..10 {
        let mut particle = Particle::new(7);
        particle.position = Route::new_random(&tsp.distance_matrix).cities;
        let target = Route::new_random(&tsp.distance_matrix).cities;
        let swaps = particle.get_swap_sequence(&target);
        assert!(swaps.len() <= 6);
        particle.velocity = swaps;
        particle.apply_velocity();
        assert_eq!(particle.position, target);
    }
}
