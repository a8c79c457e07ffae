use tsp_heuristics::aco::AntColonyOptimization;
use tsp_heuristics::ga::{Chromosome, GeneticAlgorithm};
use tsp_heuristics::pso::ParticleSwarmOptimization;
use tsp_heuristics::sa::SimulatedAnnealing;
use tsp_heuristics::stats::get_history_distances;
use tsp_heuristics::tsplib::{HeuristicAlgorithm, Route, TspLib};

fn square() -> TspLib {
    let cities: Vec<(i64, i64)> = vec![(0, 0), (0, 10), (10, 10), (10, 0)];
    TspLib::from_cities("square".to_string(), String::new(), cities).unwrap()
}

fn is_permutation(tour: &[usize], n: usize) -> bool {
    if tour.len() != n {
        return false;
    }
    let mut seen = vec![false; n];
    for &c in tour {
        if c >= n || seen[c] {
            return false;
        }
        seen[c] = true;
    }
    true
}

fn assert_non_increasing(distances: &[u64]) {
    for w in distances.windows(2) {
        assert!(w[1] <= w[0]);
    }
}

#[test]
fn aco_solves_the_square() {
    let tsp = square();
    let mut aco = AntColonyOptimization::new(&tsp, 1, 2, 500, 50_000, 10, 20, 300);
    aco.solve(&tsp);
    let best = aco.get_best_route();
    assert_eq!(best.distance, 40);
    assert!(is_permutation(&best.cities, 4));
    let history = aco.get_history();
    assert_eq!(history.len(), 20);
    let distances: Vec<u64> = history.iter().map(|r| r.distance).collect();
    assert_non_increasing(&distances);
    assert!(best.distance <= distances[0]);
    // the last recorded snapshot is the reported best
    assert_eq!(distances[distances.len() - 1], best.distance);
    assert_eq!(history[history.len() - 1].cities, best.cities);
}

#[test]
fn sa_solves_the_square() {
    let tsp = square();
    let mut sa = SimulatedAnnealing::new(&tsp, 1_000_000, 50, 1000);
    sa.solve(&tsp);
    let best = sa.get_best_route();
    assert_eq!(best.distance, 40);
    assert!(is_permutation(&best.cities, 4));
    let distances: Vec<u64> = sa.get_history().iter().map(|r| r.distance).collect();
    assert!(!distances.is_empty());
    assert_non_increasing(&distances);
    assert_eq!(distances[distances.len() - 1], best.distance);
}

#[test]
fn ga_solves_the_square() {
    let tsp = square();
    let mut ga = GeneticAlgorithm::new(&tsp, 12, 25, 100, 2);
    ga.solve(&tsp);
    let best = ga.get_best_route();
    assert_eq!(best.distance, 40);
    assert!(is_permutation(&best.cities, 4));
    let history = ga.get_history();
    assert_eq!(history.len(), 25);
    let distances: Vec<u64> = history.iter().map(|r| r.distance).collect();
    assert_non_increasing(&distances);
    assert_eq!(distances[distances.len() - 1], best.distance);
}

#[test]
fn pso_solves_the_square() {
    let tsp = square();
    let mut pso = ParticleSwarmOptimization::new(&tsp, 8, 20, 900, 900, 500);
    pso.solve(&tsp);
    let best = pso.get_best_route();
    assert_eq!(best.distance, 40);
    assert!(is_permutation(&best.cities, 4));
    let history = pso.get_history();
    assert_eq!(history.len(), 20);
    let distances: Vec<u64> = history.iter().map(|r| r.distance).collect();
    assert_non_increasing(&distances);
    assert!(best.distance <= distances[distances.len() - 1]);
}

#[test]
fn aco_pheromone_additive_without_decay() {
    let tsp = square();
    let aco = AntColonyOptimization::new(&tsp, 1, 2, 0, 50_000, 1, 1, 0);
    let initial: u64 = 1000;
    let mut pheromone: Vec<Vec<u64>> = vec![vec![initial; 4]; 4];
    let tour = Route::new(vec![0, 1, 2, 3], &tsp.distance_matrix);
    let solutions = vec![tour];
    aco.update_pheromone(&mut pheromone, &solutions, &tsp);
    // deposit is q / distance = 50000 / 40 = 1250 on both directions of
    // every traversed edge, wrap-around included
    for (a, b) in [(0usize, 1usize), (1, 2), (2, 3), (3, 0)] {
        assert_eq!(pheromone[a][b], initial + 1250);
        assert_eq!(pheromone[b][a], initial + 1250);
        assert!(pheromone[a][b] >= initial);
    }
    // untraversed edges keep exactly the initial weight
    assert_eq!(pheromone[0][2], initial);
    assert_eq!(pheromone[2][0], initial);
    assert_eq!(pheromone[1][3], initial);
    assert_eq!(pheromone[3][1], initial);
}

#[test]
fn sa_static_temperature_stops_without_moving() {
    let tsp = square();
    let mut sa = SimulatedAnnealing::new(&tsp, 500, 100, 500);
    sa.solve(&tsp);
    // initial temperature equals the floor: no epoch runs at all
    assert!(sa.get_history().is_empty());
    let best = sa.get_best_route();
    // the untouched nearest-neighbour seed of the square is already optimal
    assert_eq!(best.distance, 40);
    assert!(is_permutation(&best.cities, 4));
}

#[test]
fn ga_full_elite_freezes_the_population() {
    let tsp = square();
    let ga = GeneticAlgorithm::new(&tsp, 3, 10, 100, 7);
    let population = vec![
        Chromosome::new(Some(vec![0, 1, 2, 3]), &tsp.distance_matrix),
        Chromosome::new(Some(vec![0, 1, 3, 2]), &tsp.distance_matrix),
        Chromosome::new(Some(vec![0, 2, 1, 3]), &tsp.distance_matrix),
    ];
    let next = ga.next_generation(&population, &tsp);
    assert_eq!(next.len(), population.len());
    for (n, p) in next.iter().zip(population.iter()) {
        assert_eq!(n.route, p.route);
        assert_eq!(n.distance, p.distance);
    }
}

#[test]
fn ga_full_elite_solve_keeps_history_flat() {
    let tsp = square();
    let mut ga = GeneticAlgorithm::new(&tsp, 5, 8, 100, 5);
    ga.solve(&tsp);
    let distances: Vec<u64> = ga.get_history().iter().map(|r| r.distance).collect();
    assert_eq!(distances.len(), 8);
    for d in &distances {
        assert_eq!(*d, distances[0]);
    }
}

#[test]
fn chromosome_two_opt_reports_improvement() {
    let tsp = square();
    let mut crossing = Chromosome::new(Some(vec![0, 2, 1, 3]), &tsp.distance_matrix);
    assert_eq!(crossing.distance, 48);
    assert!(crossing.apply_2opt(&tsp.distance_matrix));
    assert_eq!(crossing.distance, 40);
    // a second pass finds nothing and leaves the tour alone
    let frozen = crossing.route.clone();
    assert!(!crossing.apply_2opt(&tsp.distance_matrix));
    assert_eq!(crossing.route, frozen);
}

#[test]
fn annealing_history_distances_match() {
    let tsp = square();
    let mut sa = SimulatedAnnealing::new(&tsp, 100_000, 200, 1000);
    sa.solve(&tsp);
    let history = sa.get_history();
    let distances = get_history_distances(sa);
    assert_eq!(distances.len(), history.len());
    for (d, r) in distances.iter().zip(history.iter()) {
        assert_eq!(*d, r.distance);
    }
    assert_non_increasing(&distances);
}

#[test]
fn run_time_is_recorded() {
    let tsp = square();
    let mut sa = SimulatedAnnealing::new(&tsp, 10_000, 500, 1000);
    assert_eq!(sa.get_run_time(), 0);
    sa.solve(&tsp);
    let _ = sa.get_run_time();
    let best = sa.get_best_route();
    assert!(best.distance >= 40);
}

#[test]
fn two_city_instance_is_solved_directly() {
    let cities: Vec<(i64, i64)> = vec![(0, 0), (3, 4)];
    let tsp = TspLib::from_cities("pair".to_string(), String::new(), cities).unwrap();
    assert_eq!(tsp.distance_matrix[0][1], 5);
    let mut aco = AntColonyOptimization::new(&tsp, 1, 2, 500, 50_000, 3, 3, 0);
    aco.solve(&tsp);
    assert_eq!(aco.get_best_route().distance, 10);
    let mut sa = SimulatedAnnealing::new(&tsp, 10_000, 500, 1000);
    sa.solve(&tsp);
    assert_eq!(sa.get_best_route().distance, 10);
}

#[test]
fn ga_population_of_one() {
    let tsp = square();
    let mut ga = GeneticAlgorithm::new(&tsp, 1, 5, 100, 0);
    ga.solve(&tsp);
    let best = ga.get_best_route();
    assert!(is_permutation(&best.cities, 4));
    assert_eq!(ga.get_history().len(), 5);
}
