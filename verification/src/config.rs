use vstd::prelude::*;

verus! {

/// Number of fixed-point units per whole unit. Every real-valued quantity of
/// the solver (distance, pheromone, heuristic desirability, selection weight,
/// deposit amount, rate) is carried as a `u64` count of these units.
pub const SCALE: u64 = 1_000_000;

/// Largest node count an instance may declare.
pub const N_MAX: usize = 1_048_576;

/// Largest distance entry (in fixed-point units) an instance may hold. With
/// `N_MAX` nodes a tour length stays below `N_MAX * DIST_MAX = 2^60`, so the
/// running sum of a tour never overflows a `u64`.
pub const DIST_MAX: u64 = 1_099_511_627_776;

/// Cap applied to selection weights. A sum of up to `N_MAX` capped weights
/// stays below `2^60`, so summing weights never overflows a `u64`.
pub const WEIGHT_CAP: u64 = 1_099_511_627_776;

/// Parameters of one solve. Rates, amounts and the pheromone bounds are
/// fixed-point values in units of `1 / SCALE`; the two exponents are plain
/// integers.
pub struct Config {
    /// Path of the problem file; read by the surrounding program, never by
    /// the solver itself.
    pub file_path: Option<String>,
    /// Number of rounds the solver runs; never more, never fewer.
    pub num_iters: usize,
    /// Requested number of ants per round; capped at the node count.
    pub num_ants: usize,
    /// Exponent on the pheromone factor of a selection weight.
    pub alpha: u32,
    /// Exponent on the heuristic factor of a selection weight.
    pub beta: u32,
    /// Fraction of pheromone removed per round, in units of `1 / SCALE`;
    /// at most `SCALE` (removing everything).
    pub evap_rate: u64,
    /// Scaling factor of deposits: a completed ant deposits `q_val / length`
    /// on each edge of its tour.
    pub q_val: u64,
    /// Value every pheromone entry starts at.
    pub init_pheromone: u64,
    /// Weight of the extra deposit along the best tour; `0` disables it.
    pub elitist_weight: u64,
    /// Floor the evaporation step clamps every pheromone entry to.
    pub min_pheromone_val: u64,
}

impl Config {
    /// The parameters a solve can run with: the evaporation rate is a
    /// fraction of at most one, and the floor and the initial value are
    /// positive so no edge is ever shut out of the search for good.
    pub open spec fn wf(self) -> bool {
        &&& self.evap_rate <= SCALE
        &&& 1 <= self.min_pheromone_val
        &&& 1 <= self.init_pheromone
    }
}

impl Default for Config {
    /// The stock parameter set: 1000 rounds of 50 ants, alpha 1, beta 3,
    /// a tenth of the pheromone evaporating per round.
    fn default() -> (c: Config)
        ensures
            c.wf(),
            c.file_path is None,
            c.num_iters == 1000,
            c.num_ants == 50,
            c.alpha == 1,
            c.beta == 3,
            c.evap_rate == SCALE / 10,
            c.q_val == 100 * SCALE,
            c.init_pheromone == SCALE / 10,
            c.elitist_weight == SCALE,
            c.min_pheromone_val == 10,
    {
        Config {
            file_path: None,
            num_iters: 1000,
            num_ants: 50,
            alpha: 1,
            beta: 3,
            evap_rate: SCALE / 10,
            q_val: 100 * SCALE,
            init_pheromone: SCALE / 10,
            elitist_weight: SCALE,
            min_pheromone_val: 10,
        }
    }
}

} // verus!
