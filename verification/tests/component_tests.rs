use rand::RngExt;
use tsp_solver::ant::Ant;
use tsp_solver::config::{Config, SCALE};
use tsp_solver::heuristic::{build_heuristic_matrix, HEUR_MAX};
use tsp_solver::matrix::new_square_matrix;
use tsp_solver::pheromone::{deposit_symmetric, evaporate};
use tsp_solver::selection::{collect_unvisited, roulette_pick};
use tsp_solver::solver::{elitist_reinforce, BestTour};
use tsp_solver::{EdgeWeightFormat, EdgeWeightType, TspInstance};

fn instance_from_matrix(dist: Vec<Vec<u64>>) -> TspInstance {
    TspInstance {
        name: "test".to_string(),
        tsp_type: "TSP".to_string(),
        comment: String::new(),
        dimension: dist.len(),
        edge_weight_type: EdgeWeightType::Explicit,
        edge_weight_format: Some(EdgeWeightFormat::FullMatrix),
        node_coords: None,
        dist_matrix: dist,
    }
}

#[test]
fn default_config_values() {
    let cfg = Config::default();
    assert_eq!(cfg.num_iters, 1000);
    assert_eq!(cfg.num_ants, 50);
    assert_eq!(cfg.alpha, 1);
    assert_eq!(cfg.beta, 3);
    assert_eq!(cfg.evap_rate, SCALE / 10);
    assert_eq!(cfg.q_val, 100 * SCALE);
    assert_eq!(cfg.init_pheromone, SCALE / 10);
    assert_eq!(cfg.elitist_weight, SCALE);
    assert_eq!(cfg.min_pheromone_val, 10);
    assert!(cfg.file_path.is_none());
}

#[test]
fn get_dist_reads_the_table() {
    let inst = instance_from_matrix(vec![vec![0, 7], vec![7, 0]]);
    assert_eq!(inst.get_dist(0, 1), 7);
    assert_eq!(inst.get_dist(1, 1), 0);
}

#[test]
fn heuristic_is_fixed_point_reciprocal() {
    // Distance of two units gives half a unit of desirability.
    let s = SCALE;
    let inst = instance_from_matrix(vec![vec![0, 2 * s], vec![2 * s, 0]]);
    let h = build_heuristic_matrix(&inst);
    assert_eq!(h[0][1], SCALE / 2);
    assert_eq!(h[1][0], SCALE / 2);
    assert_eq!(h[0][0], 0);
}

#[test]
fn heuristic_caps_vanishing_distance() {
    // Coincident points: a zero distance takes the capped maximum instead
    // of blowing up.
    let inst = instance_from_matrix(vec![vec![0, 0], vec![0, 0]]);
    let h = build_heuristic_matrix(&inst);
    assert_eq!(h[0][1], HEUR_MAX);
    assert_eq!(h[1][0], HEUR_MAX);
}

#[test]
fn evaporation_scales_every_entry() {
    let mut m = new_square_matrix(3, 100_000);
    evaporate(&mut m, 3, SCALE / 10, 10);
    for row in &m {
        for &v in row {
            assert_eq!(v, 90_000);
        }
    }
}

#[test]
fn evaporation_clamps_to_the_floor() {
    let mut m = new_square_matrix(3, 20);
    // Full evaporation would zero everything; the floor holds it up.
    evaporate(&mut m, 3, SCALE, 10);
    for row in &m {
        for &v in row {
            assert_eq!(v, 10);
        }
    }
}

#[test]
fn deposit_raises_both_directions() {
    let mut m = new_square_matrix(3, 100);
    deposit_symmetric(&mut m, 3, 0, 2, 40);
    assert_eq!(m[0][2], 140);
    assert_eq!(m[2][0], 140);
    assert_eq!(m[0][1], 100);
    assert_eq!(m[1][0], 100);
    assert_eq!(m[1][2], 100);
    assert_eq!(m[0][0], 100);
}

#[test]
fn zero_elitist_weight_leaves_the_field_unchanged() {
    let mut m = new_square_matrix(4, 5_000);
    let best = BestTour { tour: vec![0, 2, 1, 3], length: 4 * SCALE, found: true };
    elitist_reinforce(&mut m, 4, 0, 100 * SCALE, &best);
    for row in &m {
        for &v in row {
            assert_eq!(v, 5_000);
        }
    }
}

#[test]
fn positive_elitist_weight_reinforces_best_edges() {
    let mut m = new_square_matrix(4, 5_000);
    let best = BestTour { tour: vec![0, 1, 2, 3], length: 4 * SCALE, found: true };
    // weight * q_val / length = SCALE * 100 SCALE / 4 SCALE = 25 SCALE.
    elitist_reinforce(&mut m, 4, SCALE, 100 * SCALE, &best);
    let bumped = 5_000 + 25 * SCALE;
    assert_eq!(m[0][1], bumped);
    assert_eq!(m[1][0], bumped);
    assert_eq!(m[3][0], bumped);
    assert_eq!(m[0][2], 5_000);
}

#[test]
fn ant_starts_at_its_origin() {
    let ant = Ant::new(2, 5);
    assert_eq!(ant.tour, vec![2]);
    assert_eq!(ant.current_node_idx, 2);
    assert_eq!(ant.tour_length, 0);
    assert_eq!(ant.visited, vec![false, false, true, false, false]);
    assert!(!ant.tour_completed(5));
}

#[test]
fn ant_visit_appends_and_accumulates() {
    let mut ant = Ant::new(0, 3);
    ant.visit_node(2, 10);
    ant.visit_node(1, 32);
    assert_eq!(ant.tour, vec![0, 2, 1]);
    assert_eq!(ant.current_node_idx, 1);
    assert_eq!(ant.tour_length, 42);
    assert!(ant.tour_completed(3));
}

#[test]
fn single_candidate_wins_every_draw() {
    let choices = vec![(7usize, 100u64)];
    assert_eq!(roulette_pick(&choices, 0), 7);
    assert_eq!(roulette_pick(&choices, 50), 7);
    assert_eq!(roulette_pick(&choices, 99), 7);
}

#[test]
fn roulette_scans_in_ascending_order() {
    let choices = vec![(1usize, 10u64), (4usize, 20u64), (5usize, 30u64)];
    // The running totals are 10, 30, 60; the first to reach the draw wins.
    assert_eq!(roulette_pick(&choices, 0), 1);
    assert_eq!(roulette_pick(&choices, 10), 1);
    assert_eq!(roulette_pick(&choices, 11), 4);
    assert_eq!(roulette_pick(&choices, 30), 4);
    assert_eq!(roulette_pick(&choices, 31), 5);
    assert_eq!(roulette_pick(&choices, 59), 5);
}

#[test]
fn unvisited_nodes_are_listed_exactly_once_in_order() {
    let visited = vec![true, false, true, false, false];
    let unv = collect_unvisited(&visited);
    assert_eq!(unv, vec![1, 3, 4]);
    let none_left = vec![true, true];
    assert!(collect_unvisited(&none_left).is_empty());
    let all_left = vec![false, false, false];
    assert_eq!(collect_unvisited(&all_left), vec![0, 1, 2]);
}

#[test]
fn fallback_draw_reaches_every_unvisited_node() {
    // The fallback pairs a uniform draw of a position with the ordered list
    // of unvisited nodes, so over many trials every unvisited node appears.
    let visited = vec![true, false, true, false, false];
    let unv = collect_unvisited(&visited);
    let mut hits = vec![0usize; unv.len()];
    let mut rng = rand::rng();
    for _ in 0..3000 {
        let k = rng.random_range(0..unv.len());
        hits[k] += 1;
    }
    for &h in &hits {
        // A fair draw over three positions stays well away from zero.
        assert!(h > 500);
    }
}
