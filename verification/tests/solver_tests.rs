use tsp_solver::config::{Config, DIST_MAX, SCALE};
use tsp_solver::heuristic::build_heuristic_matrix;
use tsp_solver::matrix::new_square_matrix;
use tsp_solver::solver::{colony_round, construct_ants, solve_tsp_aco, BestTour};
use tsp_solver::{EdgeWeightType, TspInstance};

fn instance_from_matrix(dist: Vec<Vec<u64>>) -> TspInstance {
    TspInstance {
        name: "test".to_string(),
        tsp_type: "TSP".to_string(),
        comment: String::new(),
        dimension: dist.len(),
        edge_weight_type: EdgeWeightType::Explicit,
        edge_weight_format: None,
        node_coords: None,
        dist_matrix: dist,
    }
}

/// Four nodes at the corners of a unit square: sides one unit, diagonals
/// the square root of two.
fn unit_square() -> TspInstance {
    let s = SCALE;
    let d = 1_414_214u64;
    instance_from_matrix(vec![
        vec![0, s, d, s],
        vec![s, 0, s, d],
        vec![d, s, 0, s],
        vec![s, d, s, 0],
    ])
}

fn assert_permutation(tour: &[usize], n: usize) {
    assert_eq!(tour.len(), n);
    let mut seen = vec![false; n];
    for &node in tour {
        assert!(node < n);
        assert!(!seen[node]);
        seen[node] = true;
    }
}

#[test]
fn solve_zero_nodes_yields_empty_tour() {
    let inst = instance_from_matrix(Vec::new());
    let cfg = Config::default();
    let (tour, len) = solve_tsp_aco(&inst, &cfg);
    assert!(tour.is_empty());
    assert_eq!(len, 0);
}

#[test]
fn solve_one_node_yields_single_node_tour() {
    let inst = instance_from_matrix(vec![vec![0]]);
    let cfg = Config::default();
    let (tour, len) = solve_tsp_aco(&inst, &cfg);
    assert_eq!(tour, vec![0]);
    assert_eq!(len, 0);
}

#[test]
fn solve_zero_iterations_yields_empty_tour() {
    let inst = unit_square();
    let mut cfg = Config::default();
    cfg.num_iters = 0;
    let (tour, len) = solve_tsp_aco(&inst, &cfg);
    assert!(tour.is_empty());
    assert_eq!(len, 0);
}

#[test]
fn solve_zero_ants_yields_empty_tour() {
    let inst = unit_square();
    let mut cfg = Config::default();
    cfg.num_ants = 0;
    let (tour, len) = solve_tsp_aco(&inst, &cfg);
    assert!(tour.is_empty());
    assert_eq!(len, 0);
}

#[test]
fn unit_square_converges_to_perimeter() {
    let inst = unit_square();
    let mut cfg = Config::default();
    cfg.num_iters = 300;
    let (tour, len) = solve_tsp_aco(&inst, &cfg);
    assert_permutation(&tour, 4);
    // The perimeter is 4; every other closed tour uses two diagonals and is
    // strictly longer, so the best never drops below 4.
    assert_eq!(len, 4);
}

#[test]
fn solve_two_nodes() {
    let s = SCALE;
    let inst = instance_from_matrix(vec![vec![0, 3 * s], vec![3 * s, 0]]);
    let mut cfg = Config::default();
    cfg.num_iters = 5;
    let (tour, len) = solve_tsp_aco(&inst, &cfg);
    assert_permutation(&tour, 2);
    // There and back again: 3 + 3 units.
    assert_eq!(len, 6);
}

#[test]
fn ant_count_never_exceeds_node_count() {
    let inst = unit_square();
    let mut cfg = Config::default();
    cfg.num_ants = 50;
    let heur = build_heuristic_matrix(&inst);
    let pher = new_square_matrix(4, cfg.init_pheromone);
    let ants = construct_ants(&inst, &heur, &pher, &cfg);
    assert_eq!(ants.len(), 4);
    for ant in &ants {
        assert_permutation(&ant.tour, 4);
    }
}

#[test]
fn ant_count_follows_configuration_when_small() {
    let inst = unit_square();
    let mut cfg = Config::default();
    cfg.num_ants = 2;
    let heur = build_heuristic_matrix(&inst);
    let pher = new_square_matrix(4, cfg.init_pheromone);
    let ants = construct_ants(&inst, &heur, &pher, &cfg);
    assert_eq!(ants.len(), 2);
}

#[test]
fn best_length_never_increases_across_rounds() {
    let inst = unit_square();
    let cfg = Config::default();
    let heur = build_heuristic_matrix(&inst);
    let mut pher = new_square_matrix(4, cfg.init_pheromone);
    let mut best = BestTour::empty();
    let mut last: Option<u64> = None;
    for iteration in 0..20 {
        colony_round(&inst, &cfg, &heur, &mut pher, &mut best, iteration);
        assert!(best.found);
        if let Some(prev) = last {
            assert!(best.length <= prev);
        }
        last = Some(best.length);
    }
}

#[test]
fn completed_tour_length_matches_edge_sum() {
    let inst = unit_square();
    let cfg = Config::default();
    let heur = build_heuristic_matrix(&inst);
    let pher = new_square_matrix(4, cfg.init_pheromone);
    let ants = construct_ants(&inst, &heur, &pher, &cfg);
    for ant in &ants {
        let t = &ant.tour;
        let mut expected: u64 = 0;
        for k in 0..t.len() {
            let a = t[k];
            let b = t[(k + 1) % t.len()];
            expected += inst.dist_matrix[a][b];
        }
        assert_eq!(ant.tour_length, expected);
    }
}

#[test]
fn underflowing_weights_still_complete_tours() {
    // Distances at the cap make every heuristic factor vanish under the
    // cube, so every step takes the uniform fallback draw.
    let n = 5;
    let mut dist = vec![vec![DIST_MAX; n]; n];
    for (i, row) in dist.iter_mut().enumerate() {
        row[i] = 0;
    }
    let inst = instance_from_matrix(dist);
    let mut cfg = Config::default();
    cfg.num_iters = 3;
    let (tour, len) = solve_tsp_aco(&inst, &cfg);
    assert_permutation(&tour, n);
    let exact = 5u64 * DIST_MAX;
    assert_eq!(len, (exact + SCALE / 2) / SCALE);
}
