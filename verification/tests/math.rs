use lehman_cousins_core::domain::decimal::Decimal;
use lehman_cousins_core::utils::math::{bps_to_factor, round_to, spread_bps, try_spread_bps};

#[test]
fn spread_bps_calculation() {
    let spread = spread_bps(Decimal::new(1005, 1), Decimal::new(100, 0)).unwrap();
    assert_eq!(spread, Decimal::new(50, 0)); // 0.5% = 50 bps
}

#[test]
fn spread_bps_zero_reference_and_factor() {
    assert!(spread_bps(Decimal::new(1, 0), Decimal::new(0, 0)).is_none());
    assert_eq!(bps_to_factor(Decimal::new(50, 0)), Decimal::new(5, 3));
    assert_eq!(try_spread_bps(Decimal::new(995, 1), Decimal::new(100, 0)), Some(Some(Decimal::new(50, 0))));
}

#[test]
fn round_to_rounds_half_up() {
    assert_eq!(round_to(Decimal::new(25, 1), 0), Decimal::new(3, 0));
    assert_eq!(round_to(Decimal::new(-25, 1), 0), Decimal::new(-3, 0));
    assert_eq!(round_to(Decimal::new(245, 2), 1), Decimal::new(25, 1));
    assert_eq!(round_to(Decimal::new(244, 2), 1), Decimal::new(24, 1));
    assert_eq!(round_to(Decimal::new(12, 1), 3).scale(), 1);
}
