//! A small deterministic pseudo-random generator (the wyrand step function).
//!
//! The generator is the one mutable resource of a search run: it is owned by
//! the caller and threaded by `&mut` through mutation and acceptance calls, so
//! a run from a fixed seed is fully reproducible. Every draw is pinned by the
//! contracts to a spec-level function of the state, which is what makes the
//! search loop's determinism provable.

use vstd::prelude::*;

verus! {

/// The additive constant of the wyrand state transition.
pub const WYRAND_INCREMENT: u64 = 0xa076_1d64_78bd_642f;

/// The xor constant of the wyrand output mix.
pub const WYRAND_XOR: u64 = 0xe703_7ed1_a0b4_28db;

/// The state after one wyrand step: the increment added modulo 2^64.
pub open spec fn wyrand_next(s: u64) -> u64 {
    if s + WYRAND_INCREMENT > u64::MAX {
        (s + WYRAND_INCREMENT - 0x1_0000_0000_0000_0000) as u64
    } else {
        (s + WYRAND_INCREMENT) as u64
    }
}

/// The output mix applied to a stepped state: the 128-bit product of the
/// state with its xored copy, folded to 64 bits by xoring halves.
pub open spec fn wyrand_mix(ns: u64) -> u64 {
    let t: u128 = (ns * (ns ^ WYRAND_XOR)) as u128;
    (((t >> 64) as u64) ^ ((t & 0xffff_ffff_ffff_ffff) as u64)) as u64
}

/// The value drawn by one step of the generator from state `s`.
pub open spec fn wyrand_output(s: u64) -> u64 {
    wyrand_mix(wyrand_next(s))
}

/// A wyrand pseudo-random generator; `state` is its whole state, so equal
/// states draw equal values forever.
#[derive(Clone, Copy, Debug, PartialEq, Eq, Structural)]
pub struct WyRng {
    pub state: u64,
}

impl WyRng {
    /// A generator starting from the given seed.
    pub fn new_seed(seed: u64) -> (r: WyRng)
        ensures
            r.state == seed,
    {
        WyRng { state: seed }
    }

    /// Advances the state once and returns the mixed output.
    pub fn next_u64(&mut self) -> (r: u64)
        ensures
            final(self).state == wyrand_next(old(self).state),
            r == wyrand_output(old(self).state),
    {
        self.state = self.state.wrapping_add(WYRAND_INCREMENT);
        let ns: u64 = self.state;
        proof {
            assert((ns as int) * ((ns ^ WYRAND_XOR) as int)
                < 0x1_0000_0000_0000_0000_0000_0000_0000_0000) by (nonlinear_arith)
                requires
                    ns <= 0xffff_ffff_ffff_ffffu64,
                    (ns ^ WYRAND_XOR) <= 0xffff_ffff_ffff_ffffu64,
            ;
        }
        let t: u128 = (ns as u128).wrapping_mul((ns ^ WYRAND_XOR) as u128);
        let hi: u64 = (t >> 64) as u64;
        let lo: u64 = (t & 0xffff_ffff_ffff_ffff) as u64;
        hi ^ lo
    }

    /// Draws a value below `bound`: the mixed output reduced modulo `bound`.
    pub fn generate_below(&mut self, bound: u64) -> (r: u64)
        requires
            bound > 0,
        ensures
            final(self).state == wyrand_next(old(self).state),
            r == wyrand_output(old(self).state) % bound,
            r < bound,
    {
        let x: u64 = self.next_u64();
        x % bound
    }
}

} // verus!
