use vstd::prelude::*;

use crate::ant::{
    count_true, cycle_len, is_permutation, lemma_count_true_all, lemma_cycle_len_bound,
    lemma_path_len_bound, lemma_path_len_push, path_len, Ant,
};
use crate::config::{Config, DIST_MAX, N_MAX, SCALE};
use crate::fixed::lemma_u64_mul_fits;
use crate::heuristic::build_heuristic_matrix;
use crate::instance::TspInstance;
use crate::matrix::{matrix_min, matrix_wf, new_square_matrix};
use crate::pheromone::{deposit_sym_spec, deposit_symmetric, evaporate, matrix_view};
use crate::rng::rand_below;
use crate::selection::{
    build_choices, collect_unvisited, lemma_candidates_props, lemma_weights_sum_bounds,
    roulette_pick,
};

use rayon::iter::{IntoParallelIterator, ParallelIterator};
use std::io::Write;

verus! {

/// An ant that walked the whole instance: its state invariant holds, its
/// tour lists every node exactly once, and its accumulated length is the
/// closed-tour length of that node sequence.
pub open spec fn completed_ant(ant: Ant, inst: TspInstance) -> bool {
    &&& ant.inv()
    &&& ant.visited@.len() == inst.dimension
    &&& is_permutation(ant.tour@, inst.dimension as nat)
    &&& ant.tour_length == cycle_len(ant.tour@, inst.dist_matrix@)
}

/// Builds one candidate tour: start at a random node, then walk until all
/// nodes are visited, each step drawn by the roulette over the surviving
/// weights, or uniformly over all unvisited nodes when no weight survives;
/// finally close the cycle back to the start.
pub fn construct_ant(
    inst: &TspInstance,
    heur: &Vec<Vec<u64>>,
    pher: &Vec<Vec<u64>>,
    cfg: &Config,
) -> (ant: Ant)
    requires
        inst.wf(),
        1 <= inst.dimension,
        matrix_wf(heur@, inst.dimension as nat),
        matrix_wf(pher@, inst.dimension as nat),
    ensures
        completed_ant(ant, *inst),
{
    let n = inst.dimension;
    let start = rand_below(n as u64) as usize;
    let mut ant = Ant::new(start, n);
    let mut step: usize = 1;
    while step < n
        invariant
            inst.wf(),
            n == inst.dimension,
            1 <= n,
            matrix_wf(heur@, n as nat),
            matrix_wf(pher@, n as nat),
            ant.inv(),
            ant.visited@.len() == n,
            ant.tour@.len() == step,
            1 <= step <= n,
            ant.tour_length == path_len(ant.tour@, inst.dist_matrix@),
        decreases n - step,
    {
        let current = ant.current_node_idx;
        proof {
            assert(ant.tour@[ant.tour@.len() - 1] < n);
        }
        let (choices, sum) = build_choices(
            pher,
            heur,
            &ant.visited,
            current,
            n,
            cfg.alpha,
            cfg.beta,
        );
        proof {
            lemma_candidates_props(
                pher@,
                heur@,
                ant.visited@,
                current as int,
                cfg.alpha,
                cfg.beta,
                n as nat,
            );
        }
        let next: usize;
        if choices.len() == 0 || sum == 0 {
            let unv = collect_unvisited(&ant.visited);
            proof {
                assert(count_true(ant.visited@) == step);
            }
            let k = rand_below(unv.len() as u64) as usize;
            next = unv[k];
        } else {
            proof {
                lemma_weights_sum_bounds(choices@);
            }
            let r = rand_below(sum);
            next = roulette_pick(&choices, r);
            proof {
                let k = choose|k: int|
                    0 <= k < choices@.len() && (#[trigger] choices@[k]).0 == next;
                assert(!ant.visited@[choices@[k].0 as int]);
            }
        }
        let d = inst.get_dist(current, next);
        proof {
            lemma_path_len_bound(ant.tour@, inst.dist_matrix@, n as nat);
            lemma_path_len_push(ant.tour@, inst.dist_matrix@, next);
        }
        ant.visit_node(next, d);
        step = step + 1;
    }
    let first = ant.tour[0];
    let last = ant.current_node_idx;
    proof {
        assert(ant.tour@[0] < n);
        assert(ant.tour@[ant.tour@.len() - 1] < n);
        lemma_path_len_bound(ant.tour@, inst.dist_matrix@, n as nat);
    }
    let d = inst.get_dist(last, first);
    ant.tour_length = ant.tour_length + d;
    proof {
        lemma_count_true_all(ant.visited@);
        assert forall|j: usize| j < n implies ant.tour@.contains(j) by {
            assert(ant.visited@[j as int]);
        }
    }
    ant
}

/// Relies on rayon's `into_par_iter().map(..).collect()`: it runs the given
/// closure, here a call of the verified `construct_ant`, once per index and
/// collects the results in order, so the list holds `count` ants, each with
/// `construct_ant`'s postcondition. The shared tables are only read.
#[verifier::external_body]
fn build_ants_parallel(
    inst: &TspInstance,
    heur: &Vec<Vec<u64>>,
    pher: &Vec<Vec<u64>>,
    cfg: &Config,
    count: usize,
) -> (ants: Vec<Ant>)
    requires
        inst.wf(),
        1 <= inst.dimension,
        matrix_wf(heur@, inst.dimension as nat),
        matrix_wf(pher@, inst.dimension as nat),
    ensures
        ants@.len() == count,
        forall|k: int| 0 <= k < ants@.len() ==> completed_ant(#[trigger] ants@[k], *inst),
{
    (0..count).into_par_iter().map(|_k| construct_ant(inst, heur, pher, cfg)).collect()
}

/// The construction phase of one round: as many ants as configured, but
/// never more than there are nodes, each built independently against the
/// same snapshot of the tables, and every one a completed tour.
pub fn construct_ants(
    inst: &TspInstance,
    heur: &Vec<Vec<u64>>,
    pher: &Vec<Vec<u64>>,
    cfg: &Config,
) -> (ants: Vec<Ant>)
    requires
        inst.wf(),
        1 <= inst.dimension,
        matrix_wf(heur@, inst.dimension as nat),
        matrix_wf(pher@, inst.dimension as nat),
    ensures
        ants@.len() == if cfg.num_ants < inst.dimension {
            cfg.num_ants as int
        } else {
            inst.dimension as int
        },
        ants@.len() <= inst.dimension,
        forall|k: int| 0 <= k < ants@.len() ==> completed_ant(#[trigger] ants@[k], *inst),
{
    let count = if cfg.num_ants < inst.dimension {
        cfg.num_ants
    } else {
        inst.dimension
    };
    build_ants_parallel(inst, heur, pher, cfg, count)
}

/// Amount a completed ant of length `len` deposits on each of its edges:
/// `q_val / len` in fixed-point arithmetic, saturating at `u64::MAX`.
pub open spec fn deposit_amount_spec(q_val: u64, len: u64) -> u64
    recommends
        1 <= len,
{
    let a = q_val as int * SCALE as int / len as int;
    if a > u64::MAX {
        u64::MAX
    } else {
        a as u64
    }
}

/// Computes the per-edge deposit of an ant.
pub fn deposit_amount(q_val: u64, len: u64) -> (r: u64)
    requires
        1 <= len,
    ensures
        r == deposit_amount_spec(q_val, len),
{
    proof {
        lemma_u64_mul_fits(q_val, SCALE);
        vstd::arithmetic::mul::lemma_mul_nonnegative(q_val as int, SCALE as int);
        vstd::arithmetic::div_mod::lemma_div_is_ordered(
            0,
            q_val as int * SCALE as int,
            len as int,
        );
    }
    let a: u128 = (q_val as u128) * (SCALE as u128) / (len as u128);
    if a > u64::MAX as u128 {
        u64::MAX
    } else {
        a as u64
    }
}

/// Amount the elitist step deposits on each edge of the best tour:
/// `elitist_weight * q_val / best_length` in fixed-point arithmetic,
/// saturating at `u64::MAX`; a vanishing best length saturates outright.
pub open spec fn elitist_amount_spec(weight: u64, q_val: u64, len: u64) -> u64 {
    if len == 0 {
        u64::MAX
    } else {
        let a = weight as int * q_val as int / len as int;
        if a > u64::MAX {
            u64::MAX
        } else {
            a as u64
        }
    }
}

/// Computes the per-edge deposit of the elitist step.
pub fn elitist_amount(weight: u64, q_val: u64, len: u64) -> (r: u64)
    ensures
        r == elitist_amount_spec(weight, q_val, len),
{
    if len == 0 {
        return u64::MAX;
    }
    proof {
        lemma_u64_mul_fits(weight, q_val);
        vstd::arithmetic::mul::lemma_mul_nonnegative(weight as int, q_val as int);
        vstd::arithmetic::div_mod::lemma_div_is_ordered(
            0,
            weight as int * q_val as int,
            len as int,
        );
    }
    let a: u128 = (weight as u128) * (q_val as u128) / (len as u128);
    if a > u64::MAX as u128 {
        u64::MAX
    } else {
        a as u64
    }
}

/// An element-for-element copy of a tour.
fn copy_tour(src: &Vec<usize>) -> (r: Vec<usize>)
    ensures
        r@ == src@,
{
    let mut r: Vec<usize> = Vec::new();
    let mut k: usize = 0;
    while k < src.len()
        invariant
            k <= src@.len(),
            r@ == src@.take(k as int),
        decreases src@.len() - k,
    {
        proof {
            assert(src@.take(k as int + 1) =~= src@.take(k as int).push(src@[k as int]));
        }
        r.push(src[k]);
        k = k + 1;
    }
    proof {
        assert(src@.take(src@.len() as int) =~= src@);
    }
    r
}

/// The deposit along the first `k` edges of the closed tour, applied in
/// tour order: edge `k - 1` joins node `k - 1` to its successor, which for
/// the last node is the tour's start.
pub open spec fn deposit_tour_spec(m: Seq<Seq<u64>>, tour: Seq<usize>, amount: u64, k: nat) -> Seq<
    Seq<u64>,
>
    decreases k,
{
    if k == 0 {
        m
    } else {
        let prev = deposit_tour_spec(m, tour, amount, (k - 1) as nat);
        let a = tour[k - 1] as int;
        let b = tour[if k == tour.len() {
            0int
        } else {
            k as int
        }] as int;
        deposit_sym_spec(prev, a, b, amount)
    }
}

/// Deposits `amount` on every edge of the closed tour in order, the
/// closing edge included. Entries only grow.
pub fn deposit_tour(m: &mut Vec<Vec<u64>>, n: usize, tour: &Vec<usize>, amount: u64)
    requires
        matrix_wf(old(m)@, n as nat),
        2 <= n,
        tour@.len() == n,
        tour@.no_duplicates(),
        forall|k: int| 0 <= k < tour@.len() ==> (#[trigger] tour@[k]) < n,
    ensures
        matrix_wf(final(m)@, n as nat),
        forall|p: int, q: int|
            0 <= p < n && 0 <= q < n ==> old(m)@[p]@[q] <= (#[trigger] final(m)@[p]@[q]),
        matrix_view(final(m)@) == deposit_tour_spec(matrix_view(old(m)@), tour@, amount, n as nat),
{
    let mut k: usize = 0;
    while k < n
        invariant
            matrix_wf(m@, n as nat),
            2 <= n,
            k <= n,
            tour@.len() == n,
            tour@.no_duplicates(),
            forall|t: int| 0 <= t < tour@.len() ==> (#[trigger] tour@[t]) < n,
            forall|p: int, q: int|
                0 <= p < n && 0 <= q < n ==> old(m)@[p]@[q] <= (#[trigger] m@[p]@[q]),
            matrix_view(m@) == deposit_tour_spec(matrix_view(old(m)@), tour@, amount, k as nat),
        decreases n - k,
    {
        let i = tour[k];
        let next_k = if k + 1 == n {
            0
        } else {
            k + 1
        };
        let j = tour[next_k];
        proof {
            assert(tour@[k as int] != tour@[next_k as int]);
        }
        let ghost m_before = m@;
        deposit_symmetric(m, n, i, j, amount);
        proof {
            assert forall|p: int, q: int|
                0 <= p < n && 0 <= q < n implies old(m)@[p]@[q] <= (#[trigger] m@[p]@[q]) by {
                assert(old(m)@[p]@[q] <= m_before[p]@[q]);
                assert(m_before[p]@[q] <= m@[p]@[q]);
            }
        }
        k = k + 1;
    }
}

/// The best tour seen so far in one solve: the node sequence, its length in
/// fixed-point units, and whether any tour has been recorded yet.
pub struct BestTour {
    pub tour: Vec<usize>,
    pub length: u64,
    pub found: bool,
}

impl BestTour {
    /// A recorded best is a genuine closed tour of the instance with its
    /// exact length; before any is recorded the tour is empty.
    pub open spec fn wf(self, inst: TspInstance) -> bool {
        if self.found {
            &&& is_permutation(self.tour@, inst.dimension as nat)
            &&& self.length == cycle_len(self.tour@, inst.dist_matrix@)
        } else {
            self.tour@.len() == 0
        }
    }

    /// The state before any tour is found.
    pub fn empty() -> (b: BestTour)
        ensures
            !b.found,
            b.tour@.len() == 0,
    {
        BestTour { tour: Vec::new(), length: u64::MAX, found: false }
    }
}

/// The elitist reinforcement step: with a positive weight and a recorded
/// best tour, deposit the weighted amount along every edge of that tour.
/// With the weight zero the pheromone field is left exactly as it was: no
/// deposit beyond the ordinary per-ant deposits ever occurs.
pub fn elitist_reinforce(m: &mut Vec<Vec<u64>>, n: usize, weight: u64, q_val: u64, best: &BestTour)
    requires
        matrix_wf(old(m)@, n as nat),
        2 <= n,
        best.found ==> best.tour@.len() == n && best.tour@.no_duplicates() && forall|k: int|
            0 <= k < best.tour@.len() ==> (#[trigger] best.tour@[k]) < n,
    ensures
        matrix_wf(final(m)@, n as nat),
        forall|p: int, q: int|
            0 <= p < n && 0 <= q < n ==> old(m)@[p]@[q] <= (#[trigger] final(m)@[p]@[q]),
        weight == 0 ==> final(m)@ == old(m)@,
        weight > 0 && !best.found ==> final(m)@ == old(m)@,
        weight > 0 && best.found ==> matrix_view(final(m)@) == deposit_tour_spec(
            matrix_view(old(m)@),
            best.tour@,
            elitist_amount_spec(weight, q_val, best.length),
            n as nat,
        ),
{
    if weight > 0 && best.found {
        let amount = elitist_amount(weight, q_val, best.length);
        deposit_tour(m, n, &best.tour, amount);
    }
}

/// Relies on `writeln` to standard output: prints one progress line with
/// the round and the best length so far; the solver's state is untouched.
#[verifier::external_body]
fn report_progress_length(iteration: usize, whole: u64, frac2: u64) {
    let _ = writeln!(
        std::io::stdout(),
        "Iter {}: Best tour length so far: {}.{:02}",
        iteration,
        whole,
        frac2,
    );
}

/// Relies on `writeln` to standard output: prints one progress line saying
/// that no complete tour exists yet; the solver's state is untouched.
#[verifier::external_body]
fn report_progress_none(iteration: usize) {
    let _ = writeln!(std::io::stdout(), "Iter {}: No complete tour found yet.", iteration);
}

/// One round: build the ants against the snapshot of the field, then in
/// sequence evaporate, deposit for every completed ant of positive length,
/// track the best tour, reinforce it elitistically, and report progress at
/// the fixed cadence. Afterwards every pheromone entry is at least the
/// floor, and the recorded best never got longer.
pub fn colony_round(
    inst: &TspInstance,
    cfg: &Config,
    heur: &Vec<Vec<u64>>,
    pher: &mut Vec<Vec<u64>>,
    best: &mut BestTour,
    iteration: usize,
)
    requires
        inst.wf(),
        cfg.wf(),
        2 <= inst.dimension,
        matrix_wf(heur@, inst.dimension as nat),
        matrix_wf(old(pher)@, inst.dimension as nat),
        old(best).wf(*inst),
        iteration < cfg.num_iters,
    ensures
        matrix_wf(final(pher)@, inst.dimension as nat),
        matrix_min(final(pher)@, inst.dimension as nat, cfg.min_pheromone_val),
        final(best).wf(*inst),
        old(best).found ==> final(best).found && final(best).length <= old(best).length,
        1 <= cfg.num_ants ==> final(best).found,
        cfg.num_ants == 0 ==> *final(best) == *old(best),
{
    let n = inst.dimension;
    let ants = construct_ants(inst, heur, pher, cfg);
    evaporate(pher, n, cfg.evap_rate, cfg.min_pheromone_val);
    let mut idx: usize = 0;
    while idx < ants.len()
        invariant
            inst.wf(),
            cfg.wf(),
            n == inst.dimension,
            2 <= n,
            idx <= ants@.len(),
            ants@.len() <= n,
            forall|k: int| 0 <= k < ants@.len() ==> completed_ant(#[trigger] ants@[k], *inst),
            matrix_wf(pher@, n as nat),
            matrix_min(pher@, n as nat, cfg.min_pheromone_val),
            best.wf(*inst),
            old(best).found ==> best.found && best.length <= old(best).length,
            1 <= idx ==> best.found,
            idx == 0 ==> *best == *old(best),
        decreases ants@.len() - idx,
    {
        let a = &ants[idx];
        if a.tour_completed(n) && a.tour_length > 0 {
            let amount = deposit_amount(cfg.q_val, a.tour_length);
            let ghost m_before = pher@;
            deposit_tour(pher, n, &a.tour, amount);
            proof {
                assert forall|p: int, q: int|
                    0 <= p < n && 0 <= q < n implies cfg.min_pheromone_val <= (
                #[trigger] pher@[p]@[q]) by {
                    assert(cfg.min_pheromone_val <= m_before[p]@[q]);
                    assert(m_before[p]@[q] <= pher@[p]@[q]);
                }
            }
        }
        if a.tour_completed(n) {
            if !best.found || a.tour_length < best.length {
                best.tour = copy_tour(&a.tour);
                best.length = a.tour_length;
                best.found = true;
            }
        }
        idx = idx + 1;
    }
    let ghost m_before = pher@;
    elitist_reinforce(pher, n, cfg.elitist_weight, cfg.q_val, best);
    proof {
        assert forall|p: int, q: int|
            0 <= p < n && 0 <= q < n implies cfg.min_pheromone_val <= (#[trigger] pher@[p]@[q]) by {
            assert(cfg.min_pheromone_val <= m_before[p]@[q]);
            assert(m_before[p]@[q] <= pher@[p]@[q]);
        }
    }
    if iteration % 100 == 0 || iteration == cfg.num_iters - 1 {
        if best.found {
            report_progress_length(
                iteration,
                best.length / SCALE,
                (best.length % SCALE) / (SCALE / 100),
            );
        } else {
            report_progress_none(iteration);
        }
    }
}

/// Nearest whole number of units of a fixed-point length.
pub open spec fn rounded_units(len: int) -> int {
    (len + SCALE / 2) / (SCALE as int)
}

/// Runs the configured number of rounds and returns the best tour found
/// with its length rounded to the nearest whole unit. No nodes yield the
/// empty tour, one node the single-node tour, both of length zero; with
/// nodes, rounds and ants to work with, the result is a closed tour over
/// every node and its exact rounded length.
pub fn solve_tsp_aco(instance: &TspInstance, config: &Config) -> (res: (Vec<usize>, u64))
    requires
        instance.wf(),
        config.wf(),
    ensures
        instance.dimension == 0 ==> res.0@.len() == 0 && res.1 == 0,
        instance.dimension == 1 ==> res.0@ == seq![0usize] && res.1 == 0,
        2 <= instance.dimension && 1 <= config.num_iters && 1 <= config.num_ants ==> {
            &&& is_permutation(res.0@, instance.dimension as nat)
            &&& res.1 == rounded_units(cycle_len(res.0@, instance.dist_matrix@))
        },
        2 <= instance.dimension && (config.num_iters == 0 || config.num_ants == 0) ==> res.0@.len()
            == 0 && res.1 == 0,
{
    let n = instance.dimension;
    if n == 0 {
        return (Vec::new(), 0);
    }
    if n == 1 {
        let mut tour: Vec<usize> = Vec::new();
        tour.push(0);
        proof {
            assert(tour@ =~= seq![0usize]);
        }
        return (tour, 0);
    }
    let heur = build_heuristic_matrix(instance);
    let mut pher = new_square_matrix(n, config.init_pheromone);
    let mut best = BestTour::empty();
    let mut iteration: usize = 0;
    while iteration < config.num_iters
        invariant
            instance.wf(),
            config.wf(),
            n == instance.dimension,
            2 <= n,
            iteration <= config.num_iters,
            matrix_wf(heur@, n as nat),
            matrix_wf(pher@, n as nat),
            best.wf(*instance),
            1 <= iteration && 1 <= config.num_ants ==> best.found,
            config.num_ants == 0 || iteration == 0 ==> !best.found,
        decreases config.num_iters - iteration,
    {
        colony_round(instance, config, &heur, &mut pher, &mut best, iteration);
        iteration = iteration + 1;
    }
    if best.found {
        proof {
            lemma_cycle_len_bound(best.tour@, instance.dist_matrix@, n as nat);
        }
        let rounded = (best.length + SCALE / 2) / SCALE;
        (best.tour, rounded)
    } else {
        (Vec::new(), 0)
    }
}

} // verus!
