use dagr_game::random::RandomSource;
use rand::rngs::StdRng;
use rand::{RngCore, SeedableRng};

#[test]
fn words_are_those_of_the_seeded_generator() {
    for seed in [0u64, 1, 42, u64::MAX] {
        let mut source = RandomSource::new(seed);
        let mut reference = StdRng::seed_from_u64(seed);
        for _ in 0..100 {
            assert_eq!(source.word(), reference.next_u32());
        }
    }
}

#[test]
fn words_differ_between_seeds_and_places() {
    let mut a = RandomSource::new(1);
    let mut b = RandomSource::new(2);
    let first: Vec<u32> = (0..8).map(|_| a.word()).collect();
    let second: Vec<u32> = (0..8).map(|_| b.word()).collect();
    assert_ne!(first, second);
    assert_ne!(first[0], first[1]);
}

#[test]
fn in_range_is_the_remainder_over_the_span() {
    let mut source = RandomSource::new(7);
    let mut reference = StdRng::seed_from_u64(7);
    for (lo, hi) in [(0, 0), (3, 9), (-5, 5), (i32::MIN, i32::MAX), (10, 11)] {
        let word = reference.next_u32() as i64;
        let span = hi as i64 - lo as i64 + 1;
        let expected = (lo as i64 + word % span) as i32;
        let value = source.in_range(lo, hi);
        assert_eq!(value, expected);
        assert!(lo <= value && value <= hi);
    }
}
