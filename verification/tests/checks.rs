use lehman_cousins_core::domain::decimal::Decimal;
use lehman_cousins_core::risk_manager::checks::{
    check_notional, check_open_order_count, check_price_sanity, try_check_price_sanity, RiskError,
};

#[test]
fn notional_check_passes_below_limit() {
    assert!(check_notional(Decimal::new(30_000, 0), Decimal::new(1, 0), Decimal::new(50_000, 0)).is_ok());
}

#[test]
fn notional_check_fails_above_limit() {
    assert!(check_notional(Decimal::new(30_000, 0), Decimal::new(2, 0), Decimal::new(50_000, 0)).is_err());
}

#[test]
fn open_order_count_check() {
    assert!(check_open_order_count(5, 20).is_ok());
    assert!(check_open_order_count(20, 20).is_err());
}

#[test]
fn notional_equal_to_limit_passes() {
    assert!(check_notional(Decimal::new(25_000, 0), Decimal::new(2, 0), Decimal::new(50_000, 0)).is_ok());
    match check_notional(Decimal::new(25_001, 0), Decimal::new(2, 0), Decimal::new(50_000, 0)) {
        Err(RiskError::Notional { notional, max_usd }) => {
            assert_eq!(notional, Decimal::new(50_002, 0));
            assert_eq!(max_usd, Decimal::new(50_000, 0));
        }
        other => panic!("unexpected {:?}", other),
    }
}

#[test]
fn open_order_count_error_carries_counts() {
    match check_open_order_count(21, 20) {
        Err(RiskError::OpenOrderCount { current, max }) => {
            assert_eq!(current, 21);
            assert_eq!(max, 20);
        }
        other => panic!("unexpected {:?}", other),
    }
}

#[test]
fn price_sanity_rules() {
    // 100.5 vs 100: 50 bps deviation.
    assert!(check_price_sanity(Decimal::new(1005, 1), Decimal::new(100, 0), 50).is_ok());
    match check_price_sanity(Decimal::new(1005, 1), Decimal::new(100, 0), 49) {
        Err(RiskError::PriceDeviation { deviation_bps, tolerance_bps }) => {
            assert_eq!(deviation_bps, Decimal::new(50, 0));
            assert_eq!(tolerance_bps, 49);
        }
        other => panic!("unexpected {:?}", other),
    }
    assert!(matches!(
        check_price_sanity(Decimal::new(1, 0), Decimal::new(0, 0), 10),
        Err(RiskError::ZeroReferencePrice)
    ));
    // A tiny reference makes the deviation overflow: reported as None.
    let tiny = Decimal::from_i128_with_scale(1, 28);
    let huge = Decimal::from_i128_with_scale(79_228_162_514_264_337_593_543_950_335, 0);
    assert!(try_check_price_sanity(huge, tiny, 10).is_none());
    assert!(try_check_price_sanity(Decimal::new(1005, 1), Decimal::new(100, 0), 50).unwrap().is_ok());
}
