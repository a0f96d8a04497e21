//! The generator implements the wyrand step function; these tests hold it
//! against the nanorand crate's WyRand, draw for draw.

use anneal::rng::WyRng;
use nanorand::Rng;

#[test]
fn wyrand_draws_match_nanorand() {
    for seed in [0u64, 1, 4819, 0xdead_beef, u64::MAX] {
        let mut ours = WyRng::new_seed(seed);
        let mut theirs = nanorand::WyRand::new_seed(seed);
        for _ in 0..16 {
            let expected = u64::from_ne_bytes(theirs.rand());
            assert_eq!(ours.next_u64(), expected, "seed {}", seed);
        }
    }
}

#[test]
fn generate_below_stays_in_range() {
    let mut rng = WyRng::new_seed(12345);
    for bound in [1u64, 2, 20, 256, 1000, u64::MAX] {
        for _ in 0..50 {
            assert!(rng.generate_below(bound) < bound);
        }
    }
    let mut rng = WyRng::new_seed(77);
    for _ in 0..20 {
        assert_eq!(rng.generate_below(1), 0);
    }
}

#[test]
fn equal_seeds_draw_equal_sequences() {
    let mut a = WyRng::new_seed(42);
    let mut b = WyRng::new_seed(42);
    for _ in 0..100 {
        assert_eq!(a.next_u64(), b.next_u64());
        assert_eq!(a.state, b.state);
    }
    let mut c = WyRng::new_seed(43);
    let first_of_42 = WyRng::new_seed(42).next_u64();
    assert_ne!(c.next_u64(), first_of_42, "different seeds should diverge");
}
