use peq_optim::de::{is_stagnant, pick_donors, sample_in_box};
use peq_optim::rng::SplitMix64;

#[test]
fn generator_matches_reference_stream() {
    let mut g = SplitMix64::new(0);
    assert_eq!(g.next_u64(), 0xE220_A839_7B1D_CDAF);
    assert_eq!(g.next_u64(), 0x6E78_9E6A_A1B9_65F4);
}

#[test]
fn generator_is_reproducible() {
    let mut a = SplitMix64::new(42);
    let mut b = SplitMix64::new(42);
    for _ in 0..100 {
        assert_eq!(a.next_u64(), b.next_u64());
    }
}

#[test]
fn draws_stay_in_range() {
    let mut g = SplitMix64::new(7);
    for _ in 0..1000 {
        let v = g.between(-5, 5);
        assert!((-5..=5).contains(&v));
        assert!(g.below(3) < 3);
    }
    assert_eq!(g.between(9, 9), 9);
}

#[test]
fn donors_are_distinct_and_not_the_member() {
    let mut g = SplitMix64::new(3);
    for i in 0..4 {
        for _ in 0..200 {
            let (a, b, c) = pick_donors(&mut g, 4, i);
            assert!(a < 4 && b < 4 && c < 4);
            assert!(a != i && b != i && c != i);
            assert!(a != b && a != c && b != c);
        }
    }
}

#[test]
fn samples_lie_in_the_box() {
    let mut g = SplitMix64::new(11);
    let lower = vec![5000, 500, -12000];
    let upper = vec![13000, 5000, 12000];
    for _ in 0..200 {
        let x = sample_in_box(&mut g, &lower, &upper);
        for k in 0..3 {
            assert!(lower[k] <= x[k] && x[k] <= upper[k]);
        }
    }
}

#[test]
fn stagnation_threshold() {
    assert!(is_stagnant(1000, 990, 0, 10));
    assert!(!is_stagnant(1000, 989, 0, 10));
    assert!(is_stagnant(1_000_000, 999_000, 1000, 0));
    assert!(!is_stagnant(1_000_000, 998_999, 1000, 0));
    assert!(is_stagnant(5, 5, 0, 0));
}
