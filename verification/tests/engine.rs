//! End-to-end behavior of the search loop: zero-iteration runs, determinism,
//! monotonicity of the greedy best-score record, and greedy convergence.

use anneal::acceptance::{GreedyAcceptNeighborWhen, SimulatedAnnealingAcceptNeighborWhen};
use anneal::annealing::{simulated_annealing, simulated_annealing_traced};
use anneal::problem::{HelloWorldProblem, Problem, UTF8ArrayCandidateSolution};
use anneal::problem_travelling_salesman::{
    Point, TravellingSalesmanProblem, TravellingSalesmanProblemCandidateSolution,
};
use anneal::rng::WyRng;

fn hello_problem() -> HelloWorldProblem {
    HelloWorldProblem { key: String::from("Mystery") }
}

#[test]
fn zero_iterations_returns_initial_greedy() {
    let problem = hello_problem();
    let initial = UTF8ArrayCandidateSolution::default();
    let initial_debug = format!("{:?}", initial);
    let initial_score = problem.evaluate(&initial);
    let mut rng = WyRng::new_seed(4819);
    let best = simulated_annealing::<GreedyAcceptNeighborWhen, HelloWorldProblem>(
        &problem, initial, 0, &mut rng,
    );
    assert_eq!(format!("{:?}", best), initial_debug);
    assert_eq!(problem.evaluate(&best), initial_score);
    assert_eq!(rng.state, 4819, "a zero-iteration run must not draw");
}

#[test]
fn zero_iterations_returns_initial_annealing() {
    let problem = hello_problem();
    let initial = UTF8ArrayCandidateSolution::default();
    let initial_debug = format!("{:?}", initial);
    let mut rng = WyRng::new_seed(99);
    let (best, trace) = simulated_annealing_traced::<
        SimulatedAnnealingAcceptNeighborWhen,
        HelloWorldProblem,
    >(&problem, initial, 0, &mut rng);
    assert_eq!(format!("{:?}", best), initial_debug);
    assert!(trace.is_empty());
    assert_eq!(rng.state, 99);
}

#[test]
fn greedy_runs_are_identical() {
    let problem = hello_problem();
    let mut rng1 = WyRng::new_seed(4819);
    let mut rng2 = WyRng::new_seed(4819);
    let (best1, trace1) = simulated_annealing_traced::<GreedyAcceptNeighborWhen, HelloWorldProblem>(
        &problem,
        UTF8ArrayCandidateSolution::default(),
        5000,
        &mut rng1,
    );
    let (best2, trace2) = simulated_annealing_traced::<GreedyAcceptNeighborWhen, HelloWorldProblem>(
        &problem,
        UTF8ArrayCandidateSolution::default(),
        5000,
        &mut rng2,
    );
    assert_eq!(format!("{:?}", best1), format!("{:?}", best2));
    assert_eq!(trace1, trace2);
    assert_eq!(rng1.state, rng2.state);
}

#[test]
fn annealing_runs_are_identical_on_tsp() {
    let mut seed_rng1 = WyRng::new_seed(4819);
    let mut seed_rng2 = WyRng::new_seed(4819);
    let problem1 = TravellingSalesmanProblem::<10>::new_randomized(&mut seed_rng1);
    let problem2 = TravellingSalesmanProblem::<10>::new_randomized(&mut seed_rng2);
    let (best1, trace1) = simulated_annealing_traced::<
        SimulatedAnnealingAcceptNeighborWhen,
        TravellingSalesmanProblem<10>,
    >(
        &problem1,
        TravellingSalesmanProblemCandidateSolution::<10>::default(),
        20_000,
        &mut seed_rng1,
    );
    let (best2, trace2) = simulated_annealing_traced::<
        SimulatedAnnealingAcceptNeighborWhen,
        TravellingSalesmanProblem<10>,
    >(
        &problem2,
        TravellingSalesmanProblemCandidateSolution::<10>::default(),
        20_000,
        &mut seed_rng2,
    );
    assert_eq!(format!("{:?}", best1), format!("{:?}", best2));
    assert_eq!(trace1, trace2);
    assert_eq!(seed_rng1.state, seed_rng2.state);
    assert_eq!(problem1.evaluate(&best1), problem2.evaluate(&best2));
}

#[test]
fn greedy_best_record_never_decreases() {
    let problem = hello_problem();
    let mut rng = WyRng::new_seed(7);
    let (best, trace) = simulated_annealing_traced::<GreedyAcceptNeighborWhen, HelloWorldProblem>(
        &problem,
        UTF8ArrayCandidateSolution::default(),
        30_000,
        &mut rng,
    );
    assert_eq!(trace.len(), 30_000);
    for pair in trace.windows(2) {
        assert!(pair[0].0 <= pair[1].0, "best record regressed: {:?}", pair);
    }
    let final_score = problem.evaluate(&best);
    assert_eq!(final_score, trace.last().unwrap().0);
}

#[test]
fn greedy_converges_to_the_key() {
    // A greedy hill climb on the byte-matching landscape reaches the key
    // itself: every position is eventually hit with the matching byte, each
    // such step is a strict improvement, and no later step regresses.
    let problem = hello_problem();
    let mut rng = WyRng::new_seed(4819);
    let (best, trace) = simulated_annealing_traced::<GreedyAcceptNeighborWhen, HelloWorldProblem>(
        &problem,
        UTF8ArrayCandidateSolution::default(),
        300_000,
        &mut rng,
    );
    assert_eq!(problem.evaluate(&best), 7, "all seven key bytes should match");
    let mut high: i64 = i64::MIN;
    for (best_so_far, _) in trace {
        assert!(best_so_far >= high, "a recorded best fell below an earlier one");
        high = best_so_far;
    }
    assert_eq!(high, 7);
}

#[test]
fn trace_has_one_record_per_iteration() {
    let problem = hello_problem();
    let mut rng = WyRng::new_seed(1);
    let (_, trace) = simulated_annealing_traced::<
        SimulatedAnnealingAcceptNeighborWhen,
        HelloWorldProblem,
    >(&problem, UTF8ArrayCandidateSolution::default(), 1234, &mut rng);
    assert_eq!(trace.len(), 1234);
}

#[test]
fn plain_and_traced_loops_agree() {
    let problem = hello_problem();
    let mut rng1 = WyRng::new_seed(321);
    let mut rng2 = WyRng::new_seed(321);
    let best_plain = simulated_annealing::<SimulatedAnnealingAcceptNeighborWhen, HelloWorldProblem>(
        &problem,
        UTF8ArrayCandidateSolution::default(),
        4000,
        &mut rng1,
    );
    let (best_traced, _) = simulated_annealing_traced::<
        SimulatedAnnealingAcceptNeighborWhen,
        HelloWorldProblem,
    >(&problem, UTF8ArrayCandidateSolution::default(), 4000, &mut rng2);
    assert_eq!(format!("{:?}", best_plain), format!("{:?}", best_traced));
    assert_eq!(rng1.state, rng2.state);
}

#[test]
fn tsp_greedy_run_does_not_worsen_the_tour() {
    let square = [
        Point { x: 0, y: 0 },
        Point { x: 0, y: 100 },
        Point { x: 100, y: 100 },
        Point { x: 100, y: 0 },
        Point { x: 50, y: 50 },
        Point { x: 25, y: 75 },
    ];
    let problem = TravellingSalesmanProblem::<6>::new(square);
    let initial = TravellingSalesmanProblemCandidateSolution::<6>::default();
    let initial_score = problem.evaluate(&initial);
    let mut rng = WyRng::new_seed(11);
    let best = simulated_annealing::<GreedyAcceptNeighborWhen, TravellingSalesmanProblem<6>>(
        &problem, initial, 5000, &mut rng,
    );
    assert!(problem.evaluate(&best) >= initial_score);
}
