//! A travelling-salesman example landscape: cities on the integer plane, a
//! candidate is a visiting order, and the score is the negated path length,
//! so that shorter tours score higher. Distances are Euclidean, rounded down
//! to integers by an exact integer square root.

use vstd::prelude::*;
use crate::problem::{CandidateSolution, Problem};
use crate::rng::{WyRng, wyrand_next, wyrand_output};

verus! {

broadcast use vstd::array::group_array_axioms;

/// The largest coordinate magnitude a well-formed landscape may hold; it
/// keeps every squared distance, and the whole path length, inside `i64`.
pub const COORD_LIMIT: i64 = 1_000_000;

/// The largest city count a well-formed landscape may hold.
pub const MAX_CITIES: usize = 1_000_000_000;

/// The range that randomized city coordinates are drawn from.
pub const COORD_RANGE: u64 = 1000;

/// A city on the integer plane.
#[derive(Clone, Copy, Debug)]
pub struct Point {
    pub x: i32,
    pub y: i32,
}

/// The integer square root: the largest `r` with `r * r <= n`.
pub open spec fn isqrt(n: int) -> int
    decreases n,
{
    if n < 1 {
        0
    } else {
        let p = isqrt(n - 1);
        if (p + 1) * (p + 1) <= n {
            p + 1
        } else {
            p
        }
    }
}

pub proof fn lemma_isqrt_props(n: int)
    requires
        n >= 0,
    ensures
        0 <= isqrt(n),
        isqrt(n) * isqrt(n) <= n,
        n < (isqrt(n) + 1) * (isqrt(n) + 1),
    decreases n,
{
    if n == 0 {
        assert(isqrt(0) == 0);
    } else {
        lemma_isqrt_props(n - 1);
        let p = isqrt(n - 1);
        if (p + 1) * (p + 1) <= n {
            assert((p + 2) * (p + 2) > n) by (nonlinear_arith)
                requires
                    p >= 0,
                    n - 1 < (p + 1) * (p + 1),
                    n >= 1,
            ;
        }
    }
}

/// No value whose square exceeds `n` can be the integer square root of `n`.
pub proof fn lemma_isqrt_at_most(n: int, bound: int)
    requires
        0 <= n,
        0 <= bound,
        n < (bound + 1) * (bound + 1),
    ensures
        isqrt(n) <= bound,
{
    lemma_isqrt_props(n);
    if isqrt(n) > bound {
        assert(isqrt(n) * isqrt(n) >= (bound + 1) * (bound + 1)) by (nonlinear_arith)
            requires
                isqrt(n) >= bound + 1,
                bound >= 0,
        ;
    }
}

/// Computes the integer square root by bisection.
pub fn floor_sqrt(n: u64) -> (r: u64)
    ensures
        r as int == isqrt(n as int),
        (r as int) * (r as int) <= n as int,
        (n as int) < (r as int + 1) * (r as int + 1),
{
    let mut lo: u64 = 0;
    let mut hi: u64 = 0x1_0000_0000;
    proof {
        assert((0x1_0000_0000 as int) * (0x1_0000_0000 as int) > n as int) by (nonlinear_arith)
            requires
                n <= 0xffff_ffff_ffff_ffffu64,
        ;
    }
    while hi - lo > 1
        invariant
            lo < hi <= 0x1_0000_0000,
            (lo as int) * (lo as int) <= n as int,
            (n as int) < (hi as int) * (hi as int),
        decreases hi - lo,
    {
        let mid: u64 = lo + (hi - lo) / 2;
        proof {
            assert((mid as int) * (mid as int) <= 0x1_0000_0000_0000_0000) by (nonlinear_arith)
                requires
                    0 <= mid <= 0x1_0000_0000u64,
            ;
        }
        if (mid as u128) * (mid as u128) <= n as u128 {
            lo = mid;
        } else {
            hi = mid;
        }
    }
    proof {
        lemma_isqrt_props(n as int);
        assert(isqrt(n as int) == lo as int) by {
            let s = isqrt(n as int);
            if s < lo {
                assert(s * s >= (lo as int) * (lo as int) || (s + 1) * (s + 1) <= (lo as int) * (
                lo as int)) by (nonlinear_arith)
                    requires
                        s + 1 <= lo,
                        s >= 0,
                ;
                assert((s + 1) * (s + 1) <= (lo as int) * (lo as int)) by (nonlinear_arith)
                    requires
                        0 <= s + 1 <= lo,
                ;
            }
            if s > lo {
                assert(s * s >= (hi as int) * (hi as int)) by (nonlinear_arith)
                    requires
                        s >= hi,
                        hi >= 1,
                ;
            }
        }
    }
    lo
}

/// The squared Euclidean distance between two cities.
pub open spec fn dist2(p: Point, q: Point) -> int {
    (p.x - q.x) * (p.x - q.x) + (p.y - q.y) * (p.y - q.y)
}

/// The negated length of the path visiting the first `n` entries of `order`:
/// the sum over consecutive pairs of the rounded Euclidean distance.
pub open spec fn path_score(cities: Seq<Point>, order: Seq<u32>, n: int) -> int
    decreases n,
{
    if n <= 1 {
        0
    } else {
        path_score(cities, order, n - 1) - isqrt(
            dist2(cities[order[n - 2] as int], cities[order[n - 1] as int]),
        )
    }
}

/// The entry that the identity order holds in slot `i`: the slot index
/// itself wherever it fits the index type.
pub open spec fn identity_entry(i: int) -> u32 {
    if 0 <= i <= 0xffff_ffff {
        i as u32
    } else {
        0u32
    }
}

/// A visiting order of the `LENGTH` cities; its view is the index sequence.
/// Mutation swaps the cities at two random positions.
#[derive(Clone, Copy, Debug)]
pub struct TravellingSalesmanProblemCandidateSolution<const LENGTH: usize> {
    city_order: [u32; LENGTH],
}

impl<const LENGTH: usize> View for TravellingSalesmanProblemCandidateSolution<LENGTH> {
    type V = Seq<u32>;

    closed spec fn view(&self) -> Seq<u32> {
        self.city_order@
    }
}

impl<const LENGTH: usize> Default for TravellingSalesmanProblemCandidateSolution<LENGTH> {
    /// The identity order: city `i` is visited in position `i`.
    fn default() -> (r: Self)
        ensures
            r@ == Seq::new(LENGTH as nat, |i: int| identity_entry(i)),
            LENGTH >= 1 ==> <Self as CandidateSolution>::inv(r@),
    {
        let mut order: [u32; LENGTH] = vstd::array::array_fill_for_copy_types(0u32);
        let mut i: usize = 0;
        while i < LENGTH
            invariant
                i <= LENGTH,
                order@.len() == LENGTH,
                forall|j: int| 0 <= j < i ==> order@[j] == identity_entry(j),
            decreases LENGTH - i,
        {
            if i <= 0xffff_ffff {
                order[i] = i as u32;
            } else {
                order[i] = 0;
            }
            i = i + 1;
        }
        let r = TravellingSalesmanProblemCandidateSolution { city_order: order };
        proof {
            assert(r@ =~= Seq::new(LENGTH as nat, |i: int| identity_entry(i)));
        }
        r
    }
}

impl<const LENGTH: usize> CandidateSolution for TravellingSalesmanProblemCandidateSolution<
    LENGTH,
> {
    /// An order holds one index per city position, each naming a city.
    open spec fn inv(v: Seq<u32>) -> bool {
        &&& LENGTH >= 1
        &&& v.len() == LENGTH
        &&& forall|i: int| 0 <= i < v.len() ==> (v[i] as int) < LENGTH as int
    }

    /// The entries at the two drawn positions are exchanged.
    open spec fn mutated_view(v: Seq<u32>, rng: WyRng) -> Seq<u32> {
        let a = (wyrand_output(rng.state) % (LENGTH as u64)) as int;
        let b = (wyrand_output(wyrand_next(rng.state)) % (LENGTH as u64)) as int;
        v.update(a, v[b]).update(b, v[a])
    }

    /// Mutation draws twice: one position, then the other.
    open spec fn rng_after_mutate(v: Seq<u32>, rng: WyRng) -> WyRng {
        WyRng { state: wyrand_next(wyrand_next(rng.state)) }
    }

    fn clone_candidate(&self) -> (r: Self)
        ensures
            r@ == self@,
    {
        *self
    }

    fn mutate_candidate_solution(&mut self, rng: &mut WyRng)
        ensures
            Self::inv(final(self)@),
            final(self)@ == Self::mutated_view(old(self)@, *old(rng)),
            *final(rng) == Self::rng_after_mutate(old(self)@, *old(rng)),
    {
        let a: usize = rng.generate_below(LENGTH as u64) as usize;
        let b: usize = rng.generate_below(LENGTH as u64) as usize;
        let va: u32 = self.city_order[a];
        let vb: u32 = self.city_order[b];
        self.city_order[a] = vb;
        self.city_order[b] = va;
    }
}

/// A fixed set of `LENGTH` cities; the landscape scores a visiting order by
/// the negated length of its path.
pub struct TravellingSalesmanProblem<const LENGTH: usize> {
    cities: [Point; LENGTH],
}

impl<const LENGTH: usize> View for TravellingSalesmanProblem<LENGTH> {
    type V = Seq<Point>;

    closed spec fn view(&self) -> Seq<Point> {
        self.cities@
    }
}

impl<const LENGTH: usize> TravellingSalesmanProblem<LENGTH> {
    /// The landscape over the given cities.
    pub fn new(cities: [Point; LENGTH]) -> (r: Self)
        requires
            LENGTH <= MAX_CITIES,
            forall|i: int|
                #![trigger cities@[i]]
                0 <= i < LENGTH ==> -COORD_LIMIT <= (cities@[i].x as int) <= COORD_LIMIT
                    && -COORD_LIMIT <= (cities@[i].y as int) <= COORD_LIMIT,
        ensures
            r@ == cities@,
            r.wf(),
    {
        TravellingSalesmanProblem { cities }
    }

    /// The generator state after `k` draws.
    pub open spec fn state_after_draws(s: u64, k: nat) -> u64
        decreases k,
    {
        if k == 0 {
            s
        } else {
            wyrand_next(Self::state_after_draws(s, (k - 1) as nat))
        }
    }

    /// The city that randomized construction from state `s` puts in slot `i`:
    /// its coordinates are the `2i`-th and `2i+1`-th draws, reduced to the
    /// coordinate range.
    pub open spec fn randomized_city(s: u64, i: nat) -> Point {
        Point {
            x: (wyrand_output(Self::state_after_draws(s, 2 * i)) % COORD_RANGE) as i32,
            y: (wyrand_output(Self::state_after_draws(s, 2 * i + 1)) % COORD_RANGE) as i32,
        }
    }

    /// A landscape of `LENGTH` cities drawn uniformly from the coordinate
    /// range, two draws per city.
    pub fn new_randomized(rng: &mut WyRng) -> (r: Self)
        requires
            LENGTH <= MAX_CITIES,
        ensures
            r@ == Seq::new(
                LENGTH as nat,
                |i: int| Self::randomized_city(old(rng).state, i as nat),
            ),
            final(rng).state == Self::state_after_draws(old(rng).state, 2 * LENGTH as nat),
            r.wf(),
    {
        let ghost s0: u64 = rng.state;
        let mut cities: [Point; LENGTH] = vstd::array::array_fill_for_copy_types(
            Point { x: 0, y: 0 },
        );
        let mut i: usize = 0;
        while i < LENGTH
            invariant
                i <= LENGTH,
                cities@.len() == LENGTH,
                rng.state == Self::state_after_draws(s0, 2 * i as nat),
                forall|j: int| 0 <= j < i ==> cities@[j] == Self::randomized_city(s0, j as nat),
            decreases LENGTH - i,
        {
            let x: i32 = rng.generate_below(COORD_RANGE) as i32;
            proof {
                assert(Self::state_after_draws(s0, 2 * (i as nat) + 1) == wyrand_next(
                    Self::state_after_draws(s0, 2 * (i as nat)),
                ));
            }
            let y: i32 = rng.generate_below(COORD_RANGE) as i32;
            proof {
                assert(2 * ((i + 1) as nat) == 2 * (i as nat) + 2);
                assert(Self::state_after_draws(s0, 2 * (i as nat) + 2) == wyrand_next(
                    Self::state_after_draws(s0, 2 * (i as nat) + 1),
                ));
            }
            cities[i] = Point { x, y };
            i = i + 1;
        }
        let r = TravellingSalesmanProblem { cities };
        proof {
            assert(r@ =~= Seq::new(
                LENGTH as nat,
                |i: int| Self::randomized_city(s0, i as nat),
            ));
        }
        r
    }
}

impl<const LENGTH: usize> Problem for TravellingSalesmanProblem<LENGTH> {
    type CandidateSolution = TravellingSalesmanProblemCandidateSolution<LENGTH>;

    /// The landscape is small enough that no path length can overflow.
    open spec fn wf(self) -> bool {
        &&& LENGTH <= MAX_CITIES
        &&& self@.len() == LENGTH
        &&& forall|i: int|
            #![trigger self@[i]]
            0 <= i < LENGTH ==> -COORD_LIMIT <= (self@[i].x as int) <= COORD_LIMIT
                && -COORD_LIMIT <= (self@[i].y as int) <= COORD_LIMIT
    }

    /// The score is the negated, rounded-down path length of the order.
    open spec fn score_spec(self, v: Seq<u32>) -> i64 {
        path_score(self@, v, LENGTH as int) as i64
    }

    fn evaluate(&self, data: &TravellingSalesmanProblemCandidateSolution<LENGTH>) -> (r: i64)
        ensures
            r == self.score_spec(data@),
    {
        let mut score: i64 = 0;
        let mut i: usize = 1;
        if LENGTH <= 1 {
            return 0;
        }
        while i < LENGTH
            invariant
                self.wf(),
                <TravellingSalesmanProblemCandidateSolution<LENGTH> as CandidateSolution>::inv(
                    data@,
                ),
                1 <= i <= LENGTH,
                score as int == path_score(self@, data@, i as int),
                score as int >= -3_000_000 * (i as int - 1),
                score <= 0,
            decreases LENGTH - i,
        {
            let prev: Point = self.cities[data.city_order[i - 1] as usize];
            let city: Point = self.cities[data.city_order[i] as usize];
            let dx: i64 = prev.x as i64 - city.x as i64;
            let dy: i64 = prev.y as i64 - city.y as i64;
            proof {
                assert(dx * dx <= 4_000_000_000_000 && dx * dx >= 0) by (nonlinear_arith)
                    requires
                        -2_000_000 <= dx <= 2_000_000,
                ;
                assert(dy * dy <= 4_000_000_000_000 && dy * dy >= 0) by (nonlinear_arith)
                    requires
                        -2_000_000 <= dy <= 2_000_000,
                ;
            }
            let d2: u64 = (dx * dx + dy * dy) as u64;
            let step: u64 = floor_sqrt(d2);
            proof {
                assert((2_999_999 as int + 1) * (2_999_999 as int + 1) > d2 as int)
                    by (nonlinear_arith)
                    requires
                        d2 <= 8_000_000_000_000u64,
                ;
                lemma_isqrt_at_most(d2 as int, 2_999_999);
            }
            score = score - step as i64;
            i = i + 1;
        }
        score
    }
}

} // verus!
