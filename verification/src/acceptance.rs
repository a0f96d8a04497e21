//! Acceptance policies: the rule that decides whether the search moves from
//! its current solution to a freshly mutated neighbor.
//!
//! Two policies are provided. The greedy one accepts exactly the strict
//! improvements. The simulated-annealing one also accepts a worse neighbor
//! with a probability that decays exponentially both in the score deficit and
//! in the progress of the run, so that early iterations roam and late
//! iterations behave greedily. Scores are integers and the decay is computed
//! in fixed-point arithmetic: the acceptance probability is
//! `(1 + x / 2^14)^(-2^14)`, a close rational approximation of `exp(-x)`,
//! where `x = deficit * ANNEALING_WEIGHT * iter / total` is the annealed
//! exponent. The threshold is that probability scaled to the draw range and
//! compared against one uniform draw.

use vstd::prelude::*;
use vstd::arithmetic::div_mod::{
    lemma_div_is_ordered, lemma_div_multiples_vanish, lemma_fundamental_div_mod,
};
use vstd::arithmetic::mul::lemma_mul_inequality;
use crate::rng::{WyRng, wyrand_next, wyrand_output};

verus! {

/// The size of the discrete range that the acceptance draw is taken from.
pub const DRAW_RANGE: u64 = 1000;

/// The scaling weight applied to the score deficit in the annealed exponent.
pub const ANNEALING_WEIGHT: u64 = 4000;

/// One in the Q32 fixed-point scale used for the probability computation.
pub const FIXED_ONE: u128 = 0x1_0000_0000;

/// The grain `2^14` of the exponential approximation, and the number of
/// squarings that raise the base to that power.
pub const EXP_GRAIN: u128 = 0x4000;

/// `EXP_GRAIN * FIXED_ONE`, the numerator scale of the base fraction.
pub const EXP_GRAIN_FIXED: u128 = 0x4000_0000_0000;

/// How many times the base is squared: `2^EXP_SQUARINGS == EXP_GRAIN`.
pub const EXP_SQUARINGS: usize = 14;

/// Exponents past `EXP_CUTOFF` are treated as minus infinity: there
/// `exp(-x) * DRAW_RANGE` rounds to zero anyway.
pub const EXP_CUTOFF: u128 = 8;

/// `b` squared `k` times, rescaled to Q32 after each squaring.
pub open spec fn spec_square_chain(b: int, k: nat) -> int
    decreases k,
{
    if k == 0 {
        b
    } else {
        let p = spec_square_chain(b, (k - 1) as nat);
        (p * p) / (FIXED_ONE as int)
    }
}

/// The acceptance threshold for a worse-or-equal neighbor: the fixed-point
/// approximation of `DRAW_RANGE * exp(-deficit * ANNEALING_WEIGHT * iter / total)`,
/// truncated toward zero. A draw below it accepts the neighbor.
pub open spec fn spec_threshold(deficit: int, iter: int, total: int) -> int
    recommends
        deficit >= 0,
        0 <= iter < total,
{
    let weighted = deficit * (ANNEALING_WEIGHT as int);
    if weighted == 0 || iter == 0 {
        DRAW_RANGE as int
    } else {
        let cap = ((EXP_CUTOFF as int) * total) / weighted;
        if iter > cap {
            0
        } else {
            let exponent_num = weighted * iter;
            let base = (total * (EXP_GRAIN_FIXED as int)) / (total * (EXP_GRAIN as int)
                + exponent_num);
            (spec_square_chain(base, EXP_SQUARINGS as nat) * (DRAW_RANGE as int)) / (
            FIXED_ONE as int)
        }
    }
}

/// Dividing a nonnegative value that is at most `den * bound` by `den` stays
/// within `bound`.
proof fn lemma_div_at_most(num: int, den: int, bound: int)
    requires
        0 <= num,
        0 < den,
        0 <= bound,
        num <= den * bound,
    ensures
        num / den <= bound,
{
    lemma_div_is_ordered(num, den * bound, den);
    lemma_div_multiples_vanish(bound, den);
}

/// The squaring chain keeps Q32 values in `[0, FIXED_ONE]`.
proof fn lemma_square_chain_bounds(b: int, k: nat)
    requires
        0 <= b <= FIXED_ONE as int,
    ensures
        0 <= spec_square_chain(b, k) <= FIXED_ONE as int,
    decreases k,
{
    if k > 0 {
        lemma_square_chain_bounds(b, (k - 1) as nat);
        let p = spec_square_chain(b, (k - 1) as nat);
        assert(p * p <= (FIXED_ONE as int) * (FIXED_ONE as int)) by (nonlinear_arith)
            requires
                0 <= p <= FIXED_ONE as int,
        ;
        assert(p * p >= 0) by (nonlinear_arith);
        lemma_div_at_most(p * p, FIXED_ONE as int, FIXED_ONE as int);
        assert((p * p) / (FIXED_ONE as int) >= 0) by {
            vstd::arithmetic::div_mod::lemma_div_pos_is_pos(p * p, FIXED_ONE as int);
        }
    }
}

/// The threshold always lies in the draw range.
pub proof fn lemma_threshold_bounds(deficit: int, iter: int, total: int)
    requires
        deficit >= 0,
        0 <= iter < total,
    ensures
        0 <= spec_threshold(deficit, iter, total) <= DRAW_RANGE as int,
{
    let weighted = deficit * (ANNEALING_WEIGHT as int);
    assert(weighted >= 0) by (nonlinear_arith)
        requires
            deficit >= 0,
            weighted == deficit * 4000,
    ;
    if weighted == 0 || iter == 0 {
    } else {
        let cap = ((EXP_CUTOFF as int) * total) / weighted;
        if iter > cap {
        } else {
            let exponent_num = weighted * iter;
            let den = total * (EXP_GRAIN as int) + exponent_num;
            assert(exponent_num > 0) by (nonlinear_arith)
                requires
                    weighted > 0,
                    iter > 0,
                    exponent_num == weighted * iter,
            ;
            assert(total * (EXP_GRAIN as int) >= EXP_GRAIN as int) by (nonlinear_arith)
                requires
                    total >= 1,
            ;
            let base = (total * (EXP_GRAIN_FIXED as int)) / den;
            assert(total * (EXP_GRAIN_FIXED as int) == (total * (EXP_GRAIN as int)) * (
            FIXED_ONE as int)) by (nonlinear_arith);
            assert((total * (EXP_GRAIN as int)) * (FIXED_ONE as int) <= den * (FIXED_ONE as int))
                by (nonlinear_arith)
                requires
                    total * (EXP_GRAIN as int) <= den,
            ;
            lemma_div_at_most(total * (EXP_GRAIN_FIXED as int), den, FIXED_ONE as int);
            vstd::arithmetic::div_mod::lemma_div_pos_is_pos(
                total * (EXP_GRAIN_FIXED as int),
                den,
            );
            lemma_square_chain_bounds(base, EXP_SQUARINGS as nat);
            let chained = spec_square_chain(base, EXP_SQUARINGS as nat);
            assert(chained * (DRAW_RANGE as int) <= (FIXED_ONE as int) * (DRAW_RANGE as int))
                by (nonlinear_arith)
                requires
                    0 <= chained <= FIXED_ONE as int,
            ;
            assert(chained * (DRAW_RANGE as int) >= 0) by (nonlinear_arith)
                requires
                    chained >= 0,
            ;
            lemma_div_at_most(
                chained * (DRAW_RANGE as int),
                FIXED_ONE as int,
                DRAW_RANGE as int,
            );
            vstd::arithmetic::div_mod::lemma_div_pos_is_pos(
                chained * (DRAW_RANGE as int),
                FIXED_ONE as int,
            );
        }
    }
}

/// Past the cutoff the threshold is exactly zero: a strictly worse neighbor
/// whose annealed exponent exceeds `EXP_CUTOFF` can never be accepted.
pub proof fn lemma_threshold_zero_past_cutoff(deficit: int, iter: int, total: int)
    requires
        deficit >= 1,
        1 <= iter < total,
        deficit * (ANNEALING_WEIGHT as int) * iter > (EXP_CUTOFF as int) * total,
    ensures
        spec_threshold(deficit, iter, total) == 0,
{
    let weighted = deficit * (ANNEALING_WEIGHT as int);
    assert(weighted >= ANNEALING_WEIGHT as int) by (nonlinear_arith)
        requires
            deficit >= 1,
            weighted == deficit * 4000,
            ANNEALING_WEIGHT as int == 4000,
    ;
    let cap = ((EXP_CUTOFF as int) * total) / weighted;
    assert(iter > cap) by {
        if iter <= cap {
            lemma_fundamental_div_mod((EXP_CUTOFF as int) * total, weighted);
            assert(weighted * cap <= (EXP_CUTOFF as int) * total);
            lemma_mul_inequality(iter, cap, weighted);
            assert(weighted * iter <= weighted * cap) by (nonlinear_arith)
                requires
                    iter <= cap,
                    weighted > 0,
            ;
            assert(false);
        }
    }
}

/// Computes the annealing acceptance threshold; a uniform draw from
/// `DRAW_RANGE` below it accepts a worse-or-equal neighbor.
pub fn acceptance_threshold(current_score: i64, neighbor_score: i64, iter: usize, total: usize) -> (
    t: u64)
    requires
        neighbor_score <= current_score,
        iter < total,
    ensures
        t == spec_threshold(current_score - neighbor_score, iter as int, total as int),
        t <= DRAW_RANGE,
{
    proof {
        lemma_threshold_bounds(current_score - neighbor_score, iter as int, total as int);
    }
    let deficit: u128 = (current_score as i128 - neighbor_score as i128) as u128;
    let weighted: u128 = deficit * (ANNEALING_WEIGHT as u128);
    if weighted == 0 || iter == 0 {
        return DRAW_RANGE;
    }
    let scaled_total: u128 = EXP_CUTOFF * (total as u128);
    let cap: u128 = scaled_total / weighted;
    if (iter as u128) > cap {
        return 0;
    }
    proof {
        lemma_fundamental_div_mod(scaled_total as int, weighted as int);
        assert(weighted * cap <= scaled_total);
        assert(weighted * (iter as u128) <= weighted * cap) by (nonlinear_arith)
            requires
                iter as u128 <= cap,
                weighted > 0,
        ;
    }
    let exponent_num: u128 = weighted * (iter as u128);
    let den: u128 = (total as u128) * EXP_GRAIN + exponent_num;
    proof {
        assert((total as u128) * (EXP_GRAIN_FIXED as int) == ((total as u128) * (EXP_GRAIN as int))
            * (FIXED_ONE as int)) by (nonlinear_arith);
        assert(((total as u128) * (EXP_GRAIN as int)) * (FIXED_ONE as int) <= (den as int) * (
        FIXED_ONE as int)) by (nonlinear_arith)
            requires
                (total as u128) * (EXP_GRAIN as int) <= den as int,
        ;
        lemma_div_at_most((total as u128) * (EXP_GRAIN_FIXED as int), den as int, FIXED_ONE as int);
        vstd::arithmetic::div_mod::lemma_div_pos_is_pos(
            (total as u128) * (EXP_GRAIN_FIXED as int),
            den as int,
        );
    }
    let mut acc: u128 = ((total as u128) * EXP_GRAIN_FIXED) / den;
    let ghost base: int = acc as int;
    let mut k: usize = 0;
    while k < EXP_SQUARINGS
        invariant
            k <= EXP_SQUARINGS,
            0 <= base <= FIXED_ONE as int,
            acc == spec_square_chain(base, k as nat),
        decreases EXP_SQUARINGS - k,
    {
        proof {
            lemma_square_chain_bounds(base, k as nat);
            assert((acc as int) * (acc as int) <= (FIXED_ONE as int) * (FIXED_ONE as int))
                by (nonlinear_arith)
                requires
                    0 <= acc as int <= FIXED_ONE as int,
            ;
        }
        acc = (acc * acc) / FIXED_ONE;
        k = k + 1;
    }
    proof {
        lemma_square_chain_bounds(base, EXP_SQUARINGS as nat);
        assert((acc as int) * (DRAW_RANGE as int) <= (FIXED_ONE as int) * (DRAW_RANGE as int))
            by (nonlinear_arith)
            requires
                0 <= acc as int <= FIXED_ONE as int,
        ;
    }
    let t: u128 = (acc * (DRAW_RANGE as u128)) / FIXED_ONE;
    proof {
        lemma_div_at_most((acc as int) * (DRAW_RANGE as int), FIXED_ONE as int, DRAW_RANGE as int);
    }
    t as u64
}

/// A rule deciding whether the loop moves from the current solution to a
/// mutated neighbor, given both scores and the progress `iter / total` of the
/// run. The decision and the generator state after it are pinned to spec
/// functions of the inputs, so a policy is a pure function of its arguments
/// and the generator's next draw.
pub trait AcceptNeighborWhen {
    /// Whether the neighbor is accepted.
    spec fn accepts(
        current_score: i64,
        neighbor_score: i64,
        iter: usize,
        total: usize,
        rng: WyRng,
    ) -> bool;

    /// The generator state after any draw the decision makes.
    spec fn rng_after(
        current_score: i64,
        neighbor_score: i64,
        iter: usize,
        total: usize,
        rng: WyRng,
    ) -> WyRng;

    /// Decides on a neighbor; progress is `iter / total`, always below one.
    fn accept_neighbor(
        current_score: i64,
        neighbor_score: i64,
        iter: usize,
        total: usize,
        rng: &mut WyRng,
    ) -> (r: bool)
        requires
            iter < total,
        ensures
            r == Self::accepts(current_score, neighbor_score, iter, total, *old(rng)),
            *final(rng) == Self::rng_after(current_score, neighbor_score, iter, total, *old(rng)),
    ;
}

/// The greedy policy: accept exactly the strict improvements, never drawing
/// from the generator.
pub struct GreedyAcceptNeighborWhen {}

impl AcceptNeighborWhen for GreedyAcceptNeighborWhen {
    open spec fn accepts(
        current_score: i64,
        neighbor_score: i64,
        iter: usize,
        total: usize,
        rng: WyRng,
    ) -> bool {
        neighbor_score > current_score
    }

    open spec fn rng_after(
        current_score: i64,
        neighbor_score: i64,
        iter: usize,
        total: usize,
        rng: WyRng,
    ) -> WyRng {
        rng
    }

    fn accept_neighbor(
        current_score: i64,
        neighbor_score: i64,
        iter: usize,
        total: usize,
        rng: &mut WyRng,
    ) -> (r: bool) {
        neighbor_score > current_score
    }
}

/// The simulated-annealing policy: a strict improvement is always accepted;
/// any other neighbor is accepted when one uniform draw falls below the
/// annealed threshold, which starts at the full draw range and decays toward
/// zero as the deficit or the progress grows.
pub struct SimulatedAnnealingAcceptNeighborWhen {}

impl AcceptNeighborWhen for SimulatedAnnealingAcceptNeighborWhen {
    open spec fn accepts(
        current_score: i64,
        neighbor_score: i64,
        iter: usize,
        total: usize,
        rng: WyRng,
    ) -> bool {
        neighbor_score > current_score || (wyrand_output(rng.state) % DRAW_RANGE) < spec_threshold(
            current_score - neighbor_score,
            iter as int,
            total as int,
        )
    }

    open spec fn rng_after(
        current_score: i64,
        neighbor_score: i64,
        iter: usize,
        total: usize,
        rng: WyRng,
    ) -> WyRng {
        if neighbor_score > current_score {
            rng
        } else {
            WyRng { state: wyrand_next(rng.state) }
        }
    }

    fn accept_neighbor(
        current_score: i64,
        neighbor_score: i64,
        iter: usize,
        total: usize,
        rng: &mut WyRng,
    ) -> (r: bool) {
        if neighbor_score > current_score {
            true
        } else {
            let threshold: u64 = acceptance_threshold(current_score, neighbor_score, iter, total);
            let draw: u64 = rng.generate_below(DRAW_RANGE);
            draw < threshold
        }
    }
}

/// A tied neighbor is always accepted by the annealing policy, as is any
/// neighbor at the very start of the run: the annealed exponent is zero, so
/// the acceptance probability is one.
pub proof fn lemma_annealing_accepts_tie_or_start(
    current_score: i64,
    neighbor_score: i64,
    iter: usize,
    total: usize,
    rng: WyRng,
)
    requires
        iter < total,
        neighbor_score == current_score || iter == 0,
    ensures
        SimulatedAnnealingAcceptNeighborWhen::accepts(
            current_score,
            neighbor_score,
            iter,
            total,
            rng,
        ),
{
    if !(neighbor_score > current_score) {
        assert(spec_threshold(current_score - neighbor_score, iter as int, total as int)
            == DRAW_RANGE as int);
        assert(wyrand_output(rng.state) % DRAW_RANGE < DRAW_RANGE) by (nonlinear_arith);
    }
}

/// Once the annealed exponent of a strictly worse neighbor passes the cutoff,
/// the annealing policy rejects it whatever the generator draws.
pub proof fn lemma_annealing_rejects_past_cutoff(
    current_score: i64,
    neighbor_score: i64,
    iter: usize,
    total: usize,
    rng: WyRng,
)
    requires
        iter < total,
        neighbor_score < current_score,
        (current_score - neighbor_score) * (ANNEALING_WEIGHT as int) * (iter as int) > (
        EXP_CUTOFF as int) * (total as int),
    ensures
        !SimulatedAnnealingAcceptNeighborWhen::accepts(
            current_score,
            neighbor_score,
            iter,
            total,
            rng,
        ),
{
    assert(iter >= 1) by {
        if iter == 0 {
            assert((current_score - neighbor_score) * (ANNEALING_WEIGHT as int) * 0 == 0)
                by (nonlinear_arith);
        }
    }
    lemma_threshold_zero_past_cutoff(
        current_score - neighbor_score,
        iter as int,
        total as int,
    );
}

} // verus!
