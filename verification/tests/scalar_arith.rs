use raytracing_rs::engine::scalar::{Scalar, HALF, RAW_MAX, RAW_MIN, SCALE};
use raytracing_rs::engine::utils::{deg_to_rad, INFINITY, PI};

fn raw(x: i64) -> Scalar {
    Scalar::new(x)
}

#[test]
fn scale_is_a_billion() {
    assert_eq!(SCALE, 1_000_000_000);
    assert_eq!(HALF * 2, SCALE);
    assert_eq!(RAW_MAX, i64::MAX);
    assert_eq!(RAW_MIN, -i64::MAX);
    assert_eq!(INFINITY, i64::MAX);
}

#[test]
fn constructors_give_the_raw_values() {
    assert_eq!(Scalar::new(-17).raw(), -17);
    assert_eq!(Scalar::zero().raw(), 0);
    assert_eq!(Scalar::one().raw(), 1_000_000_000);
    assert_eq!(Scalar::infinity().raw(), i64::MAX);
    assert_eq!(Scalar::from_int(3).raw(), 3_000_000_000);
    assert_eq!(Scalar::from_int(-2).raw(), -2_000_000_000);
}

#[test]
fn from_int_saturates() {
    assert_eq!(Scalar::from_int(9_223_372_036).raw(), 9_223_372_036_000_000_000);
    assert_eq!(Scalar::from_int(9_223_372_037).raw(), i64::MAX);
    assert_eq!(Scalar::from_int(i64::MAX).raw(), i64::MAX);
    assert_eq!(Scalar::from_int(i64::MIN).raw(), -i64::MAX);
}

#[test]
fn sums_and_differences_are_exact_in_range() {
    assert_eq!(raw(1_500_000_000) + raw(2_250_000_000), raw(3_750_000_000));
    assert_eq!(raw(1_500_000_000) - raw(2_250_000_000), raw(-750_000_000));
}

#[test]
fn sums_and_differences_saturate() {
    assert_eq!(Scalar::infinity() + Scalar::one(), Scalar::infinity());
    assert_eq!(raw(RAW_MIN) - Scalar::one(), raw(RAW_MIN));
    assert_eq!(raw(i64::MIN) + raw(0), raw(RAW_MIN));
    assert_eq!(Scalar::infinity() - raw(RAW_MIN), Scalar::infinity());
}

#[test]
fn negation_is_exact_but_for_the_lowest_raw_value() {
    assert_eq!(-raw(5), raw(-5));
    assert_eq!(-Scalar::infinity(), raw(RAW_MIN));
    assert_eq!(-raw(i64::MIN), Scalar::infinity());
}

#[test]
fn products_round_towards_zero() {
    assert_eq!(raw(1_500_000_000) * raw(2_500_000_000), raw(3_750_000_000));
    assert_eq!(raw(3) * raw(HALF), raw(1));
    assert_eq!(raw(-3) * raw(HALF), raw(-1));
    assert_eq!(raw(1) * raw(HALF), raw(0));
    assert_eq!(raw(-1) * raw(HALF), raw(0));
}

#[test]
fn products_saturate() {
    assert_eq!(Scalar::infinity() * Scalar::from_int(2), Scalar::infinity());
    assert_eq!(Scalar::infinity() * Scalar::from_int(-2), raw(RAW_MIN));
    assert_eq!(raw(i64::MIN) * raw(i64::MIN), Scalar::infinity());
}

#[test]
fn quotients_round_towards_zero() {
    assert_eq!(Scalar::one() / Scalar::from_int(3), raw(333_333_333));
    assert_eq!(Scalar::from_int(-1) / Scalar::from_int(3), raw(-333_333_333));
    assert_eq!(Scalar::one() / Scalar::from_int(-3), raw(-333_333_333));
    assert_eq!(Scalar::from_int(-1) / Scalar::from_int(-3), raw(333_333_333));
    assert_eq!(Scalar::from_int(16) / Scalar::from_int(9), raw(1_777_777_777));
}

#[test]
fn quotients_saturate() {
    assert_eq!(Scalar::infinity() / raw(HALF), Scalar::infinity());
    assert_eq!(Scalar::one() / raw(1), raw(1_000_000_000_000_000_000));
    assert_eq!(Scalar::from_int(10) / raw(1), Scalar::infinity());
    assert_eq!(Scalar::from_int(-10) / raw(1), raw(RAW_MIN));
}

#[test]
fn division_by_zero_goes_to_the_infinity_of_the_dividend() {
    assert_eq!(Scalar::one() / Scalar::zero(), Scalar::infinity());
    assert_eq!(raw(-1) / Scalar::zero(), raw(RAW_MIN));
    assert_eq!(Scalar::zero() / Scalar::zero(), Scalar::zero());
}

#[test]
fn square_roots_round_down() {
    assert_eq!(Scalar::from_int(2).sqrt(), raw(1_414_213_562));
    assert_eq!(raw(250_000_000).sqrt(), raw(500_000_000));
    assert_eq!(Scalar::from_int(25).sqrt(), Scalar::from_int(5));
    assert_eq!(raw(1).sqrt(), raw(31_622));
    assert_eq!(Scalar::infinity().sqrt(), raw(96_038_388_349_944));
}

#[test]
fn square_roots_of_zero_and_below_are_zero() {
    assert_eq!(Scalar::zero().sqrt(), Scalar::zero());
    assert_eq!(raw(-4_000_000_000).sqrt(), Scalar::zero());
    assert_eq!(raw(i64::MIN).sqrt(), Scalar::zero());
}

#[test]
fn square_root_is_the_largest_with_square_below() {
    for x in [1i64, 2, 3, 999_999_999, 1_000_000_000, 123_456_789_012, i64::MAX] {
        let r = raw(x).sqrt().raw() as i128;
        let scaled = x as i128 * SCALE as i128;
        assert!(r * r <= scaled);
        assert!((r + 1) * (r + 1) > scaled);
    }
}

#[test]
fn degrees_become_radians() {
    assert_eq!(PI, 3_141_592_654);
    assert_eq!(deg_to_rad(Scalar::from_int(180)), raw(3_141_592_654));
    assert_eq!(deg_to_rad(Scalar::from_int(90)), raw(1_570_796_327));
    assert_eq!(deg_to_rad(Scalar::zero()), Scalar::zero());
}
