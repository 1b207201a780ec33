use raytracer_rs::rng::Rng;
use raytracer_rs::fixed::SCALE;

#[test]
fn unit_sequence_from_seed_one() {
    let mut rng = Rng::new(1);
    assert_eq!(rng.next_unit(), 834_774);
    assert_eq!(rng.next_unit(), 944_153);
    assert_eq!(rng.next_unit(), 341_196);
    assert_eq!(rng.next_unit(), 192_870);
}

#[test]
fn same_seed_same_stream() {
    let mut a = Rng::new(123_456);
    let mut b = Rng::new(123_456);
    let mut i = 0;
    while i < 20 {
        assert_eq!(a.next_unit(), b.next_unit());
        i += 1;
    }
}

#[test]
fn different_seeds_diverge() {
    let mut a = Rng::new(1);
    let mut b = Rng::new(2);
    assert_ne!(a.next_unit(), b.next_unit());
}

#[test]
fn next_range_respects_bounds() {
    let mut rng = Rng::new(1);
    // lo + (hi - lo) * u with the first unit sample 834774
    let r = rng.next_range(2 * SCALE, 4 * SCALE);
    assert_eq!(r, 2 * SCALE + 1_669_548);
    let mut i = 0;
    while i < 100 {
        let v = rng.next_range(-SCALE, SCALE);
        assert!(-SCALE <= v && v < SCALE);
        i += 1;
    }
}

#[test]
fn empty_range_returns_low_bound() {
    let mut rng = Rng::new(5);
    assert_eq!(rng.next_range(42, 42), 42);
}

#[test]
fn unit_samples_stay_in_unit_interval() {
    let mut rng = Rng::new(77);
    let mut i = 0;
    while i < 200 {
        let u = rng.next_unit();
        assert!(0 <= u && u < SCALE);
        i += 1;
    }
}
