//! The problem and candidate-solution abstractions of the search engine, and
//! a small string-matching example landscape.

use vstd::prelude::*;
use crate::rng::{WyRng, wyrand_next, wyrand_output};

verus! {

broadcast use vstd::array::group_array_axioms;

/// A point of a problem-specific search space: it can be deep-copied and
/// mutated in place to a random neighbor. The spec functions pin the
/// neighbor and the generator state after the draws as functions of the
/// point's view and the generator state before them, so a search run from a
/// fixed seed is reproducible.
pub trait CandidateSolution: Sized + View {
    /// Well-formedness of a point, stated over its view.
    spec fn inv(v: Self::V) -> bool;

    /// The view of the neighbor that mutation draws from generator state `rng`.
    spec fn mutated_view(v: Self::V, rng: WyRng) -> Self::V;

    /// The generator state after the draws that mutation makes.
    spec fn rng_after_mutate(v: Self::V, rng: WyRng) -> WyRng;

    /// An independent deep copy: mutating one copy never affects the other.
    fn clone_candidate(&self) -> (r: Self)
        ensures
            r@ == self@,
    ;

    /// Replaces the receiver in place with a random neighbor, a small local
    /// perturbation drawn from `rng`.
    fn mutate_candidate_solution(&mut self, rng: &mut WyRng)
        requires
            Self::inv(old(self)@),
        ensures
            Self::inv(final(self)@),
            final(self)@ == Self::mutated_view(old(self)@, *old(rng)),
            *final(rng) == Self::rng_after_mutate(old(self)@, *old(rng)),
    ;
}

/// An immutable fitness landscape: one pure evaluation function from a
/// candidate solution to a scalar score, higher being better. The result is
/// pinned to a spec function of the problem and the candidate's view, so the
/// loop may evaluate any number of times and always gets the same answer.
pub trait Problem: Sized {
    type CandidateSolution: CandidateSolution;

    /// Well-formedness of the landscape.
    spec fn wf(self) -> bool;

    /// The score of a candidate, stated over its view.
    spec fn score_spec(self, v: <Self::CandidateSolution as View>::V) -> i64;

    /// Evaluates a candidate; a pure function with no side effects.
    fn evaluate(&self, data: &Self::CandidateSolution) -> (r: i64)
        requires
            self.wf(),
            <Self::CandidateSolution as CandidateSolution>::inv(data@),
        ensures
            r == self.score_spec(data@),
    ;
}

/// How many of the first `n` positions hold the same byte in `key` and `data`.
pub open spec fn match_count(key: Seq<u8>, data: Seq<u8>, n: int) -> int
    decreases n,
{
    if n <= 0 {
        0
    } else {
        match_count(key, data, n - 1) + if key[n - 1] == data[n - 1] {
            1int
        } else {
            0int
        }
    }
}

/// A landscape that scores a 20-byte candidate by how close it comes to the
/// UTF-8 bytes of `key`: each position contributes one less than the absolute
/// byte distance when that is positive, which rewards exactly the matching
/// positions.
pub struct HelloWorldProblem {
    pub key: String,
}

impl HelloWorldProblem {
    /// The UTF-8 bytes of the key, which the scoring compares against.
    pub open spec fn key_bytes(self) -> Seq<u8> {
        vstd::utf8::encode_utf8(self.key@)
    }
}

impl Problem for HelloWorldProblem {
    type CandidateSolution = UTF8ArrayCandidateSolution;

    /// The key must fit in the 20 bytes that a candidate holds.
    open spec fn wf(self) -> bool {
        self.key_bytes().len() <= 20
    }

    /// The score is the number of byte positions where the candidate agrees
    /// with the key.
    open spec fn score_spec(self, v: Seq<u8>) -> i64 {
        match_count(self.key_bytes(), v, self.key_bytes().len() as int) as i64
    }

    fn evaluate(&self, data: &UTF8ArrayCandidateSolution) -> (r: i64)
        ensures
            r == self.score_spec(data@),
    {
        let key_slice: &[u8] = self.key.as_str().as_bytes();
        let n: usize = key_slice.len();
        let mut score: i64 = 0;
        let mut i: usize = 0;
        while i < n
            invariant
                n == self.key_bytes().len(),
                n <= 20,
                key_slice@ == self.key_bytes(),
                data@.len() == 20,
                i <= n,
                score == match_count(self.key_bytes(), data@, i as int),
                0 <= score <= i,
            decreases n - i,
        {
            let key_val: i64 = key_slice[i] as i64;
            let data_val: i64 = data.data[i] as i64;
            let diff: i64 = key_val - data_val;
            let local_score: i64 = 1 - (if diff < 0 {
                -diff
            } else {
                diff
            });
            if local_score > 0 {
                score = score + local_score;
            }
            i = i + 1;
        }
        score
    }
}

/// A 20-byte candidate; its view is the byte sequence. Mutation replaces one
/// random byte with a random byte.
#[derive(Clone, Copy, Debug)]
pub struct UTF8ArrayCandidateSolution {
    data: [u8; 20],
}

impl View for UTF8ArrayCandidateSolution {
    type V = Seq<u8>;

    closed spec fn view(&self) -> Seq<u8> {
        self.data@
    }
}

impl UTF8ArrayCandidateSolution {
    /// A candidate holding the given 20 bytes.
    pub fn from_bytes(data: &Vec<u8>) -> (r: Self)
        requires
            data@.len() == 20,
        ensures
            r@ == data@,
    {
        let mut out: [u8; 20] = vstd::array::array_fill_for_copy_types(0u8);
        let mut i: usize = 0;
        while i < 20
            invariant
                data@.len() == 20,
                i <= 20,
                out@.len() == 20,
                forall|j: int| 0 <= j < i ==> out@[j] == data@[j],
            decreases 20 - i,
        {
            out[i] = data[i];
            i = i + 1;
        }
        proof {
            assert(out@ =~= data@);
        }
        UTF8ArrayCandidateSolution { data: out }
    }
}

impl Default for UTF8ArrayCandidateSolution {
    /// The all-zero starting candidate.
    fn default() -> (r: Self)
        ensures
            r@ == Seq::<u8>::new(20, |i: int| 0u8),
    {
        let r = UTF8ArrayCandidateSolution { data: vstd::array::array_fill_for_copy_types(0u8) };
        proof {
            assert(r@ =~= Seq::<u8>::new(20, |i: int| 0u8));
        }
        r
    }
}

impl CandidateSolution for UTF8ArrayCandidateSolution {
    /// A candidate is always exactly 20 bytes.
    open spec fn inv(v: Seq<u8>) -> bool {
        v.len() == 20
    }

    /// The byte at the first drawn position is replaced with the second draw.
    open spec fn mutated_view(v: Seq<u8>, rng: WyRng) -> Seq<u8> {
        v.update(
            (wyrand_output(rng.state) % 20) as int,
            (wyrand_output(wyrand_next(rng.state)) % 256) as u8,
        )
    }

    /// Mutation draws twice: a position, then a byte.
    open spec fn rng_after_mutate(v: Seq<u8>, rng: WyRng) -> WyRng {
        WyRng { state: wyrand_next(wyrand_next(rng.state)) }
    }

    fn clone_candidate(&self) -> (r: Self)
        ensures
            r@ == self@,
    {
        *self
    }

    fn mutate_candidate_solution(&mut self, rng: &mut WyRng)
        ensures
            Self::inv(final(self)@),
            final(self)@ == Self::mutated_view(old(self)@, *old(rng)),
            *final(rng) == Self::rng_after_mutate(old(self)@, *old(rng)),
    {
        let idx: usize = rng.generate_below(20) as usize;
        let byte: u8 = rng.generate_below(256) as u8;
        self.data[idx] = byte;
    }
}

} // verus!
