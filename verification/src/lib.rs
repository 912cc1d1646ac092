pub mod ant;
pub mod config;
pub mod fixed;
pub mod heuristic;
pub mod instance;
pub mod matrix;
pub mod pheromone;
mod rng;
pub mod selection;
pub mod solver;

pub use ant::Ant;
pub use config::Config;
pub use instance::{EdgeWeightFormat, EdgeWeightType, Node, TspInstance};
pub use solver::{solve_tsp_aco, BestTour};
