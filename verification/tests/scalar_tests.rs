use galaxy_engine::scalar::{
    fp_add, fp_div, fp_mul, fp_mul_div, fp_neg, fp_sqrt, fp_sub, isqrt, G, SCALAR_MAX, UNIT,
};

#[test]
fn fp_add_exact_and_saturating() {
    assert_eq!(fp_add(2_000_000, 3_000_000), 5_000_000);
    assert_eq!(fp_add(-2_000_000, 500_000), -1_500_000);
    assert_eq!(fp_add(SCALAR_MAX, SCALAR_MAX), SCALAR_MAX);
    assert_eq!(fp_add(-SCALAR_MAX, -SCALAR_MAX), -SCALAR_MAX);
    assert_eq!(fp_add(i64::MAX, i64::MAX), SCALAR_MAX);
}

#[test]
fn fp_sub_and_neg_exact() {
    assert_eq!(fp_sub(2_000_000, 3_000_000), -1_000_000);
    assert_eq!(fp_neg(7), -7);
    assert_eq!(fp_neg(i64::MIN), SCALAR_MAX);
    assert_eq!(fp_sub(-SCALAR_MAX, SCALAR_MAX), -SCALAR_MAX);
}

#[test]
fn fp_mul_is_fixed_point() {
    // 2.0 * 3.0 == 6.0
    assert_eq!(fp_mul(2_000_000, 3_000_000), 6_000_000);
    // 0.5 * 0.5 == 0.25
    assert_eq!(fp_mul(500_000, 500_000), 250_000);
    // sign handling, magnitude rounded toward zero
    assert_eq!(fp_mul(-1_500_000, 1_000_001), -1_500_001);
    assert_eq!(fp_mul(1, 1), 0);
    // saturation
    assert_eq!(fp_mul(SCALAR_MAX, 2_000_000), SCALAR_MAX);
    assert_eq!(fp_mul(SCALAR_MAX, -2_000_000), -SCALAR_MAX);
}

#[test]
fn fp_div_is_fixed_point() {
    // 6.0 / 3.0 == 2.0
    assert_eq!(fp_div(6_000_000, 3_000_000), 2_000_000);
    // 1.0 / 3.0 == 0.333333, rounded toward zero
    assert_eq!(fp_div(1_000_000, 3_000_000), 333_333);
    assert_eq!(fp_div(-1_000_000, 3_000_000), -333_333);
    // saturation: a huge numerator over a tiny denominator
    assert_eq!(fp_div(SCALAR_MAX, 1), SCALAR_MAX);
}

#[test]
fn fp_mul_div_scales_by_ratio() {
    // 10.0 scaled by 3/4
    assert_eq!(fp_mul_div(10_000_000, 3, 4), 7_500_000);
    // sign comes from the product of the signs
    assert_eq!(fp_mul_div(-10_000_000, 3, 4), -7_500_000);
    assert_eq!(fp_mul_div(-10_000_000, -3, 4), 7_500_000);
}

#[test]
fn isqrt_exact_values() {
    assert_eq!(isqrt(0), 0);
    assert_eq!(isqrt(1), 1);
    assert_eq!(isqrt(2), 1);
    assert_eq!(isqrt(3), 1);
    assert_eq!(isqrt(4), 2);
    assert_eq!(isqrt(99), 9);
    assert_eq!(isqrt(100), 10);
    assert_eq!(isqrt(10_000_000_000_000_000), 100_000_000);
    assert_eq!(isqrt(u128::MAX), u64::MAX);
}

#[test]
fn fp_sqrt_fixed_point_values() {
    // sqrt(4.0) == 2.0
    assert_eq!(fp_sqrt(4_000_000), 2_000_000);
    // sqrt(2.0) == 1.414213..., rounded down
    assert_eq!(fp_sqrt(2_000_000), 1_414_213);
    assert_eq!(fp_sqrt(0), 0);
    // sqrt(1.0) == 1.0
    assert_eq!(fp_sqrt(UNIT), UNIT);
}

#[test]
fn gravitational_constant_is_one() {
    // G is fixed at 1.0 in simulation units.
    assert_eq!(G, UNIT);
}
