use skybox::fast_rng::{Frng, MULTIPLIER};

fn reference_shorts(seed: u64, count: usize) -> Vec<u16> {
    let mut state = seed;
    for _ in 0..3 {
        state = state.wrapping_mul(MULTIPLIER);
    }
    let mut out = Vec::new();
    for _ in 0..count {
        state = state.wrapping_mul(MULTIPLIER);
        out.push((state >> 48) as u16);
    }
    out
}

#[test]
fn frng_first_samples_of_known_seeds() {
    let mut rng = Frng::new(12345);
    let got: Vec<u16> = (0..5).map(|_| rng.next_short()).collect();
    assert_eq!(got, vec![48133, 2659, 21811, 1074, 48564]);

    let mut rng = Frng::new(1);
    let got: Vec<u16> = (0..5).map(|_| rng.next_short()).collect();
    assert_eq!(got, vec![19125, 38260, 14133, 34315, 54821]);
}

#[test]
fn frng_all_ones_seed_wraps() {
    let mut rng = Frng::new(u64::MAX);
    let got: Vec<u16> = (0..4).map(|_| rng.next_short()).collect();
    assert_eq!(got, vec![46410, 27275, 51402, 31220]);
}

#[test]
fn frng_zero_seed_never_leaves_zero() {
    let mut rng = Frng::new(0);
    for _ in 0..100 {
        assert_eq!(rng.next_short(), 0);
    }
}

#[test]
fn frng_next_is_one_transition() {
    // Skipping one transition by hand lands on the same stream.
    let mut skipped = Frng::new(777);
    skipped.next();
    let mut plain = Frng::new(777);
    plain.next_short();
    for _ in 0..50 {
        assert_eq!(skipped.next_short(), plain.next_short());
    }
}

#[test]
fn frng_matches_reference_on_many_seeds() {
    let mut seed: u64 = 0x9e37_79b9_7f4a_7c15;
    for _ in 0..200 {
        let mut rng = Frng::new(seed);
        let got: Vec<u16> = (0..16).map(|_| rng.next_short()).collect();
        assert_eq!(got, reference_shorts(seed, 16));
        seed = seed.wrapping_mul(6364136223846793005).wrapping_add(1442695040888963407);
    }
}

#[test]
fn frng_same_seed_same_stream() {
    let mut a = Frng::new(2024);
    let mut b = Frng::new(2024);
    for _ in 0..1000 {
        assert_eq!(a.next_short(), b.next_short());
    }
}

#[test]
fn frng_different_seeds_differ() {
    let mut a = Frng::new(1);
    let mut b = Frng::new(2);
    let sa: Vec<u16> = (0..8).map(|_| a.next_short()).collect();
    let sb: Vec<u16> = (0..8).map(|_| b.next_short()).collect();
    assert_ne!(sa, sb);
}

#[test]
fn frng_unit_samples_stay_below_one() {
    // The renderer divides a sample by 65536.00001 to get a number in [0, 1).
    let mut rng = Frng::new(99);
    for _ in 0..10_000 {
        let unit = rng.next_short() as f64 / 65536.00001;
        assert!((0.0..1.0).contains(&unit));
    }
}
