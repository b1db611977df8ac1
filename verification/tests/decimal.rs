use lehman_cousins_core::domain::decimal::{Decimal, MAX_MANTISSA};

fn d(m: i64, s: u32) -> Decimal {
    Decimal::new(m, s)
}

#[test]
fn checked_arithmetic_is_exact() {
    assert_eq!(d(15, 1).checked_add(&d(225, 2)).unwrap(), d(375, 2));
    assert_eq!(d(15, 1).checked_sub(&d(225, 2)).unwrap(), d(-75, 2));
    assert_eq!(d(15, 1).checked_mul(&d(2, 0)).unwrap(), d(3, 0));
    assert_eq!(d(1, 0).checked_div(&d(4, 0)).unwrap(), d(25, 2));
    assert_eq!(d(15, 1).checked_add(&d(225, 2)).unwrap().to_string(), "3.75");
}

#[test]
fn checked_arithmetic_reports_overflow_and_zero_division() {
    let max = Decimal::from_i128_with_scale(MAX_MANTISSA, 0);
    assert!(max.checked_add(&max).is_none());
    assert!(max.checked_mul(&d(2, 0)).is_none());
    assert!(d(1, 0).checked_div(&d(0, 0)).is_none());
    assert!(max.checked_sub(&d(1, 0)).is_some());
}

#[test]
fn equality_is_by_value() {
    assert_eq!(d(10, 1), d(1, 0));
    assert_ne!(d(10, 1), d(11, 1));
    assert!(d(5, 1).less_than(&d(6, 1)));
    assert!(d(20, 1).greater_than(&d(19, 1)));
    assert!(!d(20, 1).greater_than(&d(2, 0)));
}

#[test]
fn text_keeps_the_scale() {
    assert_eq!(d(1500, 3).to_string(), "1.500");
    assert_eq!(d(-5, 2).to_string(), "-0.05");
    assert_eq!(Decimal::zero().to_string(), "0");
    assert_eq!(d(65002, 0).to_string(), "65002");
}

#[test]
fn trunc_rounds_toward_zero() {
    assert_eq!(d(-27, 1).trunc(), d(-2, 0));
    assert_eq!(d(27, 1).trunc(), d(2, 0));
    assert_eq!(d(-27, 1).trunc().to_string(), "-2");
}

#[test]
fn rounding_halves_away_from_zero() {
    assert_eq!(d(2345, 3).round_dp_half_away(2).to_string(), "2.35");
    assert_eq!(d(-2345, 3).round_dp_half_away(2).to_string(), "-2.35");
    assert_eq!(d(2344, 3).round_dp_half_away(2).to_string(), "2.34");
    assert_eq!(d(12, 1).round_dp_half_away(3).to_string(), "1.2");
}

#[test]
fn sign_helpers() {
    assert_eq!(d(-35, 1).abs(), d(35, 1));
    assert!(d(0, 4).is_zero());
    assert!(!d(1, 28).is_zero());
    assert_eq!(d(-35, 1).mantissa(), -35);
    assert_eq!(d(-35, 1).scale(), 1);
}
