use raytracer_rs::fixed::{
    SCALE, FP_MAX, fadd, fsub, fneg, fmul, fdiv, fabs, fmin, fmax, fclamp, fsqrt, fsin, fcos, ftan,
};

#[test]
fn fmul_exact_product() {
    // 2.5 * 2.0 == 5.0
    assert_eq!(fmul(2_500_000, 2_000_000), 5_000_000);
}

#[test]
fn fmul_truncates_toward_zero() {
    // -2.5 * 2.0 == -5.0 exactly; -0.0000015 * 1.0 truncates toward zero
    assert_eq!(fmul(-2_500_000, 2_000_000), -5_000_000);
    assert_eq!(fmul(-3, 500_000), -1);
    assert_eq!(fmul(3, 500_000), 1);
}

#[test]
fn fdiv_exact_quotient() {
    assert_eq!(fdiv(7_000_000, 2_000_000), 3_500_000);
    assert_eq!(fdiv(-3_000_000, 2_000_000), -1_500_000);
}

#[test]
fn fdiv_by_zero_saturates_by_sign() {
    assert_eq!(fdiv(1, 0), FP_MAX);
    assert_eq!(fdiv(-1, 0), -FP_MAX);
    assert_eq!(fdiv(0, 0), 0);
}

#[test]
fn fadd_saturates_at_bound() {
    assert_eq!(fadd(FP_MAX, FP_MAX), FP_MAX);
    assert_eq!(fsub(-FP_MAX, FP_MAX), -FP_MAX);
    assert_eq!(fadd(1, 2), 3);
}

#[test]
fn fneg_and_fabs() {
    assert_eq!(fneg(5), -5);
    assert_eq!(fabs(-7), 7);
    assert_eq!(fabs(7), 7);
}

#[test]
fn fmin_fmax_fclamp() {
    assert_eq!(fmin(3, -4), -4);
    assert_eq!(fmax(3, -4), 3);
    assert_eq!(fclamp(2_000_000, 0, SCALE), SCALE);
    assert_eq!(fclamp(-5, 0, SCALE), 0);
    assert_eq!(fclamp(123, 0, SCALE), 123);
}

#[test]
fn fsqrt_perfect_square() {
    // sqrt(4.0) == 2.0
    assert_eq!(fsqrt(4_000_000), 2_000_000);
    assert_eq!(fsqrt(SCALE), SCALE);
    assert_eq!(fsqrt(0), 0);
    assert_eq!(fsqrt(-5), 0);
}

#[test]
fn fsqrt_truncates() {
    // sqrt(2.0) == 1.414213...
    assert_eq!(fsqrt(2_000_000), 1_414_213);
}

#[test]
fn trig_series_values() {
    // at pi/4 the series gives sin and cos near sqrt(2)/2 and tan near one
    assert_eq!(fsin(785_398), 707_107);
    assert_eq!(fcos(785_398), 707_104);
    assert_eq!(ftan(785_398), 1_000_004);
    assert_eq!(fsin(0), 0);
    assert_eq!(fcos(0), SCALE);
}
