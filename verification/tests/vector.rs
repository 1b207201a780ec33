use raytracer_rs::fixed::SCALE;
use raytracer_rs::vec3::Vec3;
use raytracer_rs::rng::Rng;

#[test]
fn dot_and_cross_exact() {
    let a = Vec3::new(1_000_000, 2_000_000, 3_000_000);
    let b = Vec3::new(4_000_000, -5_000_000, 6_000_000);
    // 1*4 - 2*5 + 3*6 == 12
    assert_eq!(Vec3::dot(&a, &b), 12_000_000);
    let c = Vec3::cross(&a, &b);
    // (2*6 - 3*(-5), 3*4 - 1*6, 1*(-5) - 2*4) == (27, 6, -13)
    assert_eq!(c.x, 27_000_000);
    assert_eq!(c.y, 6_000_000);
    assert_eq!(c.z, -13_000_000);
}

#[test]
fn add_sub_scale_componentwise() {
    let a = Vec3::new(1_000_000, -2_000_000, 500_000);
    let b = Vec3::new(250_000, 250_000, 250_000);
    let s = a.add(&b);
    assert_eq!((s.x, s.y, s.z), (1_250_000, -1_750_000, 750_000));
    let d = a.sub(&b);
    assert_eq!((d.x, d.y, d.z), (750_000, -2_250_000, 250_000));
    let m = a.mul_scalar(2_000_000);
    assert_eq!((m.x, m.y, m.z), (2_000_000, -4_000_000, 1_000_000));
    let n = a.neg();
    assert_eq!((n.x, n.y, n.z), (-1_000_000, 2_000_000, -500_000));
}

#[test]
fn normalize_three_four_zero() {
    // |(3, 4, 0)| == 5, so the unit vector is (0.6, 0.8, 0) exactly
    let mut v = Vec3::new(3_000_000, 4_000_000, 0);
    assert_eq!(v.sqaure_length(), 25_000_000);
    assert_eq!(v.length(), 5_000_000);
    let u = v.get_normal();
    assert_eq!((u.x, u.y, u.z), (600_000, 800_000, 0));
    v.normalize();
    assert_eq!((v.x, v.y, v.z), (600_000, 800_000, 0));
}

#[test]
fn reflect_about_up_axis() {
    // a 45-degree incoming ray mirrors its vertical component
    let v = Vec3::new(1_000_000, -1_000_000, 0);
    let n = Vec3::new(0, 1_000_000, 0);
    let r = v.reflect(&n);
    assert_eq!((r.x, r.y, r.z), (1_000_000, 1_000_000, 0));
}

#[test]
fn index_access_and_rejection() {
    let mut v = Vec3::new(10, 20, 30);
    assert_eq!(v.get_from_index(0), Ok(10));
    assert_eq!(v.get_from_index(1), Ok(20));
    assert_eq!(v.get_from_index(2), Ok(30));
    assert_eq!(v.get_from_index(3), Err(()));
    assert_eq!(v.set_from_index(1, 99), Ok(()));
    assert_eq!(v.y, 99);
    assert_eq!(v.set_from_index(7, 5), Err(()));
    assert_eq!((v.x, v.y, v.z), (10, 99, 30));
}

#[test]
fn near_zero_threshold() {
    assert!(Vec3::new(999, -999, 999).is_near_zero());
    assert!(!Vec3::new(1_000, 0, 0).is_near_zero());
    assert!(Vec3::new(0, 0, 0).is_near_zero());
}

#[test]
fn rand_range_is_deterministic() {
    let mut rng = Rng::new(1);
    let v = Vec3::rand_range((0, SCALE), &mut rng);
    // the first three unit samples of the seed-1 generator
    assert_eq!((v.x, v.y, v.z), (834_774, 944_153, 341_196));
    let mut rng2 = Rng::new(1);
    let w = Vec3::rand_range((0, SCALE), &mut rng2);
    assert_eq!((w.x, w.y, w.z), (v.x, v.y, v.z));
}

#[test]
fn rand_in_unit_sphere_stays_inside() {
    let mut rng = Rng::new(7);
    let mut i = 0;
    while i < 50 {
        let v = Vec3::rand_in_unit_sphere(&mut rng);
        assert!(v.sqaure_length() <= SCALE);
        i += 1;
    }
}

#[test]
fn rand_in_unit_sphere_components_strictly_below_one() {
    let mut rng = Rng::new(3);
    let mut i = 0;
    while i < 50 {
        let v = Vec3::rand_in_unit_sphere(&mut rng);
        assert!(-SCALE <= v.x && v.x < SCALE);
        assert!(-SCALE <= v.y && v.y < SCALE);
        assert!(-SCALE <= v.z && v.z < SCALE);
        i += 1;
    }
}

#[test]
fn rand_in_hemisphere_faces_the_normal() {
    let mut rng = Rng::new(5);
    let normal = Vec3::new(0, SCALE, 0);
    let down = Vec3::new(0, -SCALE, 0);
    let mut i = 0;
    while i < 50 {
        let v = Vec3::rand_in_hemisphere(&normal, &mut rng);
        assert!(Vec3::dot(&v, &normal) >= 0);
        assert!(v.sqaure_length() <= SCALE);
        let w = Vec3::rand_in_hemisphere(&down, &mut rng);
        assert!(Vec3::dot(&w, &down) >= 0);
        i += 1;
    }
}

#[test]
fn rand_in_unit_disk_is_flat_and_inside() {
    let mut rng = Rng::new(9);
    let mut i = 0;
    while i < 50 {
        let v = Vec3::rand_in_unit_disk(&mut rng);
        assert_eq!(v.z, 0);
        assert!(v.sqaure_length() < SCALE);
        i += 1;
    }
}
