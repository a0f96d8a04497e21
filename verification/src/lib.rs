//! A local-search metaheuristic engine: the search loop repeatedly mutates a
//! candidate solution and decides, through a pluggable acceptance policy,
//! whether to move to the mutated neighbor, returning the best solution kept.

pub mod acceptance;
pub mod annealing;
pub mod problem;
pub mod problem_travelling_salesman;
pub mod rng;
