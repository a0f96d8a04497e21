//! The search driver: a loop that runs exactly `iters` iterations, each one
//! cloning the retained solution, mutating the clone, scoring it, and asking
//! the acceptance policy — at progress `i / iters` — whether to move to it.
//!
//! The whole run is pinned to the spec function [`search_state`]: the
//! retained solution, its cached score and the generator state after `k`
//! iterations are a mathematical function of the problem, the initial
//! solution, the seed and the iteration count. Determinism of the loop, the
//! monotonicity of the greedy best-score sequence, and the zero-iteration
//! behavior are proved below as lemmas over that function.

use vstd::prelude::*;
use crate::acceptance::{AcceptNeighborWhen, GreedyAcceptNeighborWhen};
use crate::problem::{CandidateSolution, Problem};
use crate::rng::WyRng;

verus! {

/// The view of a problem's candidate solutions.
pub type SolutionView<P> = <<P as Problem>::CandidateSolution as View>::V;

/// One iteration of the search from the retained solution's view, its score
/// and the generator state: mutate a copy of the retained solution, score
/// the neighbor, ask the policy at progress `iter / total`, and keep the
/// neighbor exactly when it is accepted.
pub open spec fn search_step<A: AcceptNeighborWhen, P: Problem>(
    problem: P,
    best: SolutionView<P>,
    best_score: i64,
    rng: WyRng,
    iter: usize,
    total: usize,
) -> (SolutionView<P>, i64, WyRng) {
    let neighbor = <P::CandidateSolution as CandidateSolution>::mutated_view(best, rng);
    let rng_after_mutation = <P::CandidateSolution as CandidateSolution>::rng_after_mutate(
        best,
        rng,
    );
    let neighbor_score = problem.score_spec(neighbor);
    let accepted = A::accepts(best_score, neighbor_score, iter, total, rng_after_mutation);
    let rng_after_decision = A::rng_after(best_score, neighbor_score, iter, total,
        rng_after_mutation);
    if accepted {
        (neighbor, neighbor_score, rng_after_decision)
    } else {
        (best, best_score, rng_after_decision)
    }
}

/// The retained solution's view, its score and the generator state after the
/// first `k` of `total` iterations of a run that started from `init` with
/// generator state `rng0`.
pub open spec fn search_state<A: AcceptNeighborWhen, P: Problem>(
    problem: P,
    init: SolutionView<P>,
    rng0: WyRng,
    total: usize,
    k: int,
) -> (SolutionView<P>, i64, WyRng)
    decreases k,
{
    if k <= 0 {
        (init, problem.score_spec(init), rng0)
    } else {
        let prev = search_state::<A, P>(problem, init, rng0, total, k - 1);
        search_step::<A, P>(problem, prev.0, prev.1, prev.2, (k - 1) as usize, total)
    }
}

/// The progress record of the first `k` iterations: per iteration, the score
/// retained after the step and the score of the neighbor it proposed.
pub open spec fn search_trace<A: AcceptNeighborWhen, P: Problem>(
    problem: P,
    init: SolutionView<P>,
    rng0: WyRng,
    total: usize,
    k: int,
) -> Seq<(i64, i64)>
    decreases k,
{
    if k <= 0 {
        Seq::empty()
    } else {
        let prev = search_state::<A, P>(problem, init, rng0, total, k - 1);
        let neighbor = <P::CandidateSolution as CandidateSolution>::mutated_view(prev.0, prev.2);
        let neighbor_score = problem.score_spec(neighbor);
        let cur = search_state::<A, P>(problem, init, rng0, total, k);
        search_trace::<A, P>(problem, init, rng0, total, k - 1).push((cur.1, neighbor_score))
    }
}

/// Runs the search for exactly `iters` iterations and returns the retained
/// solution; the result and the final generator state are pinned to
/// [`search_state`], so a rerun from equal inputs is identical.
pub fn simulated_annealing<A: AcceptNeighborWhen, P: Problem>(
    problem: &P,
    initial_solution: P::CandidateSolution,
    iters: usize,
    rng: &mut WyRng,
) -> (best: P::CandidateSolution)
    requires
        problem.wf(),
        <P::CandidateSolution as CandidateSolution>::inv(initial_solution@),
    ensures
        best@ == search_state::<A, P>(*problem, initial_solution@, *old(rng), iters, iters as int).0,
        *final(rng) == search_state::<A, P>(
            *problem,
            initial_solution@,
            *old(rng),
            iters,
            iters as int,
        ).2,
        <P::CandidateSolution as CandidateSolution>::inv(best@),
{
    let (best, _) = simulated_annealing_traced::<A, P>(problem, initial_solution, iters, rng);
    best
}

/// The search loop with its progress record: behaves exactly like
/// [`simulated_annealing`] — both are pinned to the same [`search_state`] —
/// and also returns, per iteration, the retained score after the step and
/// the proposed neighbor's score.
pub fn simulated_annealing_traced<A: AcceptNeighborWhen, P: Problem>(
    problem: &P,
    initial_solution: P::CandidateSolution,
    iters: usize,
    rng: &mut WyRng,
) -> (result: (P::CandidateSolution, Vec<(i64, i64)>))
    requires
        problem.wf(),
        <P::CandidateSolution as CandidateSolution>::inv(initial_solution@),
    ensures
        result.0@ == search_state::<A, P>(
            *problem,
            initial_solution@,
            *old(rng),
            iters,
            iters as int,
        ).0,
        *final(rng) == search_state::<A, P>(
            *problem,
            initial_solution@,
            *old(rng),
            iters,
            iters as int,
        ).2,
        result.1@ == search_trace::<A, P>(
            *problem,
            initial_solution@,
            *old(rng),
            iters,
            iters as int,
        ),
        <P::CandidateSolution as CandidateSolution>::inv(result.0@),
{
    let ghost init_view: SolutionView<P> = initial_solution@;
    let ghost rng0: WyRng = *rng;
    let mut best: P::CandidateSolution = initial_solution;
    let mut best_score: i64 = problem.evaluate(&best);
    let mut trace: Vec<(i64, i64)> = Vec::new();
    let mut i: usize = 0;
    while i < iters
        invariant
            problem.wf(),
            <P::CandidateSolution as CandidateSolution>::inv(best@),
            i <= iters,
            best@ == search_state::<A, P>(*problem, init_view, rng0, iters, i as int).0,
            best_score == search_state::<A, P>(*problem, init_view, rng0, iters, i as int).1,
            *rng == search_state::<A, P>(*problem, init_view, rng0, iters, i as int).2,
            trace@ == search_trace::<A, P>(*problem, init_view, rng0, iters, i as int),
        decreases iters - i,
    {
        let mut neighbor: P::CandidateSolution = best.clone_candidate();
        neighbor.mutate_candidate_solution(rng);
        let neighbor_score: i64 = problem.evaluate(&neighbor);
        let accepted: bool = A::accept_neighbor(best_score, neighbor_score, i, iters, rng);
        if accepted {
            best = neighbor;
            best_score = neighbor_score;
        }
        trace.push((best_score, neighbor_score));
        proof {
            assert(search_state::<A, P>(*problem, init_view, rng0, iters, i + 1).0 == best@);
        }
        i = i + 1;
    }
    (best, trace)
}

/// The retained score is never stale: after any number of iterations it is
/// exactly the problem's evaluation of the retained solution, whatever the
/// acceptance policy decided along the way.
pub proof fn lemma_best_score_consistent<A: AcceptNeighborWhen, P: Problem>(
    problem: P,
    init: SolutionView<P>,
    rng0: WyRng,
    total: usize,
    k: int,
)
    ensures
        search_state::<A, P>(problem, init, rng0, total, k).1 == problem.score_spec(
            search_state::<A, P>(problem, init, rng0, total, k).0,
        ),
    decreases k,
{
    if k > 0 {
        lemma_best_score_consistent::<A, P>(problem, init, rng0, total, k - 1);
    }
}

/// Under the greedy policy a step never lowers the retained score, so the
/// best-score sequence read across iterations is non-decreasing.
pub proof fn lemma_greedy_monotone<P: Problem>(
    problem: P,
    init: SolutionView<P>,
    rng0: WyRng,
    total: usize,
    j: int,
    k: int,
)
    requires
        j <= k,
    ensures
        search_state::<GreedyAcceptNeighborWhen, P>(problem, init, rng0, total, j).1
            <= search_state::<GreedyAcceptNeighborWhen, P>(problem, init, rng0, total, k).1,
    decreases k - j,
{
    if j < k {
        lemma_greedy_monotone::<P>(problem, init, rng0, total, j, k - 1);
    }
}

/// The trace holds one record per iteration, and the best-score column of
/// record `j` is exactly the score retained after iteration `j`: the loop
/// records the currently accepted solution's score, never another value.
pub proof fn lemma_trace_records_retained_score<A: AcceptNeighborWhen, P: Problem>(
    problem: P,
    init: SolutionView<P>,
    rng0: WyRng,
    total: usize,
    k: int,
    j: int,
)
    requires
        0 <= j < k,
    ensures
        search_trace::<A, P>(problem, init, rng0, total, k).len() == k,
        search_trace::<A, P>(problem, init, rng0, total, k)[j].0 == search_state::<A, P>(
            problem,
            init,
            rng0,
            total,
            j + 1,
        ).1,
    decreases k,
{
    lemma_trace_len::<A, P>(problem, init, rng0, total, k);
    if j < k - 1 {
        lemma_trace_records_retained_score::<A, P>(problem, init, rng0, total, k - 1, j);
    }
}

/// The trace of `k` iterations holds exactly `k` records.
pub proof fn lemma_trace_len<A: AcceptNeighborWhen, P: Problem>(
    problem: P,
    init: SolutionView<P>,
    rng0: WyRng,
    total: usize,
    k: int,
)
    requires
        0 <= k,
    ensures
        search_trace::<A, P>(problem, init, rng0, total, k).len() == k,
    decreases k,
{
    if k > 0 {
        lemma_trace_len::<A, P>(problem, init, rng0, total, k - 1);
    }
}

/// Under the greedy policy the recorded best-score sequence is
/// non-decreasing: no later record falls below an earlier one.
pub proof fn lemma_greedy_trace_monotone<P: Problem>(
    problem: P,
    init: SolutionView<P>,
    rng0: WyRng,
    total: usize,
    k: int,
    j1: int,
    j2: int,
)
    requires
        0 <= j1 <= j2 < k,
    ensures
        search_trace::<GreedyAcceptNeighborWhen, P>(problem, init, rng0, total, k)[j1].0
            <= search_trace::<GreedyAcceptNeighborWhen, P>(problem, init, rng0, total, k)[j2].0,
{
    lemma_trace_records_retained_score::<GreedyAcceptNeighborWhen, P>(
        problem,
        init,
        rng0,
        total,
        k,
        j1,
    );
    lemma_trace_records_retained_score::<GreedyAcceptNeighborWhen, P>(
        problem,
        init,
        rng0,
        total,
        k,
        j2,
    );
    lemma_greedy_monotone::<P>(problem, init, rng0, total, j1 + 1, j2 + 1);
}

/// Two runs from an equal problem, initial solution, iteration count and
/// generator state agree after every iteration, on the retained solution,
/// its score, the generator state and the whole trace: the loop is
/// deterministic in its inputs.
pub proof fn lemma_determinism<A: AcceptNeighborWhen, P: Problem>(
    problem1: P,
    init1: SolutionView<P>,
    rng1: WyRng,
    total1: usize,
    problem2: P,
    init2: SolutionView<P>,
    rng2: WyRng,
    total2: usize,
    k: int,
)
    requires
        problem1 == problem2,
        init1 == init2,
        rng1 == rng2,
        total1 == total2,
    ensures
        search_state::<A, P>(problem1, init1, rng1, total1, k) == search_state::<A, P>(
            problem2,
            init2,
            rng2,
            total2,
            k,
        ),
        search_trace::<A, P>(problem1, init1, rng1, total1, k) == search_trace::<A, P>(
            problem2,
            init2,
            rng2,
            total2,
            k,
        ),
{
}

/// A run of zero iterations keeps the initial solution, its unmodified
/// score, and an untouched generator.
pub proof fn lemma_zero_iterations<A: AcceptNeighborWhen, P: Problem>(
    problem: P,
    init: SolutionView<P>,
    rng0: WyRng,
    total: usize,
)
    ensures
        search_state::<A, P>(problem, init, rng0, total, 0) == (
            init,
            problem.score_spec(init),
            rng0,
        ),
        search_trace::<A, P>(problem, init, rng0, total, 0) == Seq::<(i64, i64)>::empty(),
{
}

/// Iteration `k` (0-indexed) of a run of `total` iterations consults the
/// policy at progress numerator exactly `k` over `total`, with `k < total`:
/// the progress values passed across a run are `0, 1, 2, ...` over the
/// constant denominator, each strictly below one, increasing monotonically.
pub proof fn lemma_progress_boundary<A: AcceptNeighborWhen, P: Problem>(
    problem: P,
    init: SolutionView<P>,
    rng0: WyRng,
    total: usize,
    k: int,
)
    requires
        0 <= k < total,
    ensures
        ({
            let prev = search_state::<A, P>(problem, init, rng0, total, k);
            search_state::<A, P>(problem, init, rng0, total, k + 1) == search_step::<A, P>(
                problem,
                prev.0,
                prev.1,
                prev.2,
                k as usize,
                total,
            )
        }),
        k < total as int,
{
}

} // verus!
