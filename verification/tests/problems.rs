//! The two example landscapes and the integer square root they rely on.

use anneal::problem::{HelloWorldProblem, Problem, UTF8ArrayCandidateSolution};
use anneal::problem_travelling_salesman::{
    floor_sqrt, Point, TravellingSalesmanProblem, TravellingSalesmanProblemCandidateSolution,
};
use anneal::rng::WyRng;

#[test]
fn hello_world_scores_matching_bytes() {
    let problem = HelloWorldProblem { key: String::from("Mystery") };
    let zeros = UTF8ArrayCandidateSolution::default();
    assert_eq!(problem.evaluate(&zeros), 0);

    let mut exact = b"Mystery".to_vec();
    exact.resize(20, 0);
    let exact = UTF8ArrayCandidateSolution::from_bytes(&exact);
    assert_eq!(problem.evaluate(&exact), 7);

    let mut partial = b"Mysxxxx".to_vec();
    partial.resize(20, 0);
    let partial = UTF8ArrayCandidateSolution::from_bytes(&partial);
    assert_eq!(problem.evaluate(&partial), 3);
}

#[test]
fn hello_world_ignores_bytes_past_the_key() {
    let problem = HelloWorldProblem { key: String::from("ab") };
    let mut data = b"ab".to_vec();
    data.resize(20, 77);
    let data = UTF8ArrayCandidateSolution::from_bytes(&data);
    assert_eq!(problem.evaluate(&data), 2);
}

#[test]
fn hello_world_empty_key_scores_zero() {
    let problem = HelloWorldProblem { key: String::new() };
    let zeros = UTF8ArrayCandidateSolution::default();
    assert_eq!(problem.evaluate(&zeros), 0);
}

#[test]
fn tsp_unit_square_scores_negated_path_length() {
    // Four cities on a unit square, visited in the identity order: the path
    // walks three sides, so the score is exactly minus three.
    let square = [
        Point { x: 0, y: 0 },
        Point { x: 0, y: 1 },
        Point { x: 1, y: 1 },
        Point { x: 1, y: 0 },
    ];
    let problem = TravellingSalesmanProblem::<4>::new(square);
    let order = TravellingSalesmanProblemCandidateSolution::<4>::default();
    assert_eq!(problem.evaluate(&order), -3);
}

#[test]
fn tsp_pythagorean_distances_are_exact() {
    let cities = [
        Point { x: 0, y: 0 },
        Point { x: 3, y: 4 },
        Point { x: 9, y: 12 },
    ];
    let problem = TravellingSalesmanProblem::<3>::new(cities);
    let order = TravellingSalesmanProblemCandidateSolution::<3>::default();
    assert_eq!(problem.evaluate(&order), -15);
}

#[test]
fn tsp_rounds_each_distance_down() {
    let cities = [Point { x: 0, y: 0 }, Point { x: 1, y: 1 }];
    let problem = TravellingSalesmanProblem::<2>::new(cities);
    let order = TravellingSalesmanProblemCandidateSolution::<2>::default();
    assert_eq!(problem.evaluate(&order), -1, "sqrt(2) rounds down to 1");
}

#[test]
fn tsp_single_city_scores_zero() {
    let problem = TravellingSalesmanProblem::<1>::new([Point { x: 5, y: 5 }]);
    let order = TravellingSalesmanProblemCandidateSolution::<1>::default();
    assert_eq!(problem.evaluate(&order), 0);
}

#[test]
fn tsp_randomized_construction_is_seed_deterministic() {
    let mut rng1 = WyRng::new_seed(4819);
    let mut rng2 = WyRng::new_seed(4819);
    let problem1 = TravellingSalesmanProblem::<10>::new_randomized(&mut rng1);
    let problem2 = TravellingSalesmanProblem::<10>::new_randomized(&mut rng2);
    assert_eq!(rng1.state, rng2.state);
    let order = TravellingSalesmanProblemCandidateSolution::<10>::default();
    assert_eq!(problem1.evaluate(&order), problem2.evaluate(&order));
}

#[test]
fn floor_sqrt_exact_values() {
    assert_eq!(floor_sqrt(0), 0);
    assert_eq!(floor_sqrt(1), 1);
    assert_eq!(floor_sqrt(2), 1);
    assert_eq!(floor_sqrt(3), 1);
    assert_eq!(floor_sqrt(4), 2);
    assert_eq!(floor_sqrt(99), 9);
    assert_eq!(floor_sqrt(100), 10);
    assert_eq!(floor_sqrt(8_000_000_000_000), 2_828_427);
    assert_eq!(floor_sqrt(u64::MAX), 4_294_967_295);
}
