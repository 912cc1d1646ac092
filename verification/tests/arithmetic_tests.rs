use tsp_solver::config::{Config, SCALE, WEIGHT_CAP};
use tsp_solver::fixed::{fp_mul, pow_fp, sat_add};
use tsp_solver::heuristic::build_heuristic_matrix;
use tsp_solver::matrix::new_square_matrix;
use tsp_solver::selection::build_choices;
use tsp_solver::solver::{colony_round, deposit_amount, elitist_amount, solve_tsp_aco, BestTour};
use tsp_solver::{EdgeWeightType, TspInstance};

fn instance_from_matrix(dist: Vec<Vec<u64>>) -> TspInstance {
    TspInstance {
        name: "test".to_string(),
        tsp_type: "TSP".to_string(),
        comment: String::new(),
        dimension: dist.len(),
        edge_weight_type: EdgeWeightType::Explicit,
        edge_weight_format: None,
        node_coords: None,
        dist_matrix: dist,
    }
}

#[test]
fn fixed_point_products() {
    // 2.0 * 3.0 = 6.0 on the fixed-point grid.
    assert_eq!(fp_mul(2 * SCALE, 3 * SCALE), 6 * SCALE);
    // 0.5 * 0.5 = 0.25.
    assert_eq!(fp_mul(SCALE / 2, SCALE / 2), SCALE / 4);
    // Tiny values truncate to nothing.
    assert_eq!(fp_mul(900, 900), 0);
    // Anything past the cap comes out as the cap.
    assert_eq!(fp_mul(u64::MAX, u64::MAX), WEIGHT_CAP);
}

#[test]
fn fixed_point_powers() {
    // x^0 is one for any x.
    assert_eq!(pow_fp(7 * SCALE, 0), SCALE);
    assert_eq!(pow_fp(0, 0), SCALE);
    // 2.0^3 = 8.0.
    assert_eq!(pow_fp(2 * SCALE, 3), 8 * SCALE);
    // 0^2 = 0.
    assert_eq!(pow_fp(0, 2), 0);
}

#[test]
fn saturating_addition() {
    assert_eq!(sat_add(1, 2), 3);
    assert_eq!(sat_add(u64::MAX - 1, 5), u64::MAX);
}

#[test]
fn deposit_amounts_divide_by_length() {
    // q / len = 100 / 4 = 25.
    assert_eq!(deposit_amount(100 * SCALE, 4 * SCALE), 25 * SCALE);
    // weight * q / len = 2 * 100 / 4 = 50.
    assert_eq!(elitist_amount(2 * SCALE, 100 * SCALE, 4 * SCALE), 50 * SCALE);
    // A vanishing best length saturates instead of dividing by zero.
    assert_eq!(elitist_amount(SCALE, 100 * SCALE, 0), u64::MAX);
}

#[test]
fn reported_length_rounds_to_nearest() {
    // Two nodes 1.25 units apart: the cycle is 2.5 units, reported as 3.
    let d = SCALE + SCALE / 4;
    let inst = instance_from_matrix(vec![vec![0, d], vec![d, 0]]);
    let mut cfg = Config::default();
    cfg.num_iters = 3;
    let (_, len) = solve_tsp_aco(&inst, &cfg);
    assert_eq!(len, 3);

    // 1.2 units apart: the cycle is 2.4 units, reported as 2.
    let d = SCALE + SCALE / 5;
    let inst = instance_from_matrix(vec![vec![0, d], vec![d, 0]]);
    let (_, len) = solve_tsp_aco(&inst, &cfg);
    assert_eq!(len, 2);
}

#[test]
fn candidate_scan_filters_and_sums() {
    let pher = new_square_matrix(3, 2 * SCALE);
    let heur = new_square_matrix(3, 3 * SCALE);
    let visited = vec![true, false, false];
    let (choices, sum) = build_choices(&pher, &heur, &visited, 0, 3, 1, 1);
    // Both unvisited nodes survive with weight 2.0 * 3.0 = 6.0 each.
    assert_eq!(choices, vec![(1, 6 * SCALE), (2, 6 * SCALE)]);
    assert_eq!(sum, 12 * SCALE);
}

#[test]
fn candidate_scan_drops_vanishing_weights() {
    // Pheromone so small that the product truncates to zero on the grid.
    let pher = new_square_matrix(3, 1);
    let heur = new_square_matrix(3, 1);
    let visited = vec![true, false, false];
    let (choices, sum) = build_choices(&pher, &heur, &visited, 0, 3, 1, 1);
    assert!(choices.is_empty());
    assert_eq!(sum, 0);
}

#[test]
fn pheromone_stays_at_or_above_floor_after_rounds() {
    let s = SCALE;
    let d = 1_414_214u64;
    let inst = instance_from_matrix(vec![
        vec![0, s, d, s],
        vec![s, 0, s, d],
        vec![d, s, 0, s],
        vec![s, d, s, 0],
    ]);
    let mut cfg = Config::default();
    // Evaporate nearly everything each round to push entries at the floor.
    cfg.evap_rate = 999_999;
    let heur = build_heuristic_matrix(&inst);
    let mut pher = new_square_matrix(4, cfg.init_pheromone);
    let mut best = BestTour::empty();
    for iteration in 0..5 {
        colony_round(&inst, &cfg, &heur, &mut pher, &mut best, iteration);
        for row in &pher {
            for &v in row {
                assert!(v >= cfg.min_pheromone_val);
            }
        }
    }
}
