use lehman_cousins_core::config::RiskConfig;
use lehman_cousins_core::domain::decimal::Decimal;
use lehman_cousins_core::domain::feed_state::FeedState;
use lehman_cousins_core::domain::models::{ExecutionReport, OrderStatus, OrderType, Side};
use lehman_cousins_core::order_manager::manager::{pre_flight, tentative_order, try_pre_flight, SubmitRejection};
use lehman_cousins_core::risk_manager::checks::{try_check_notional, RiskError};
use lehman_cousins_core::risk_manager::manager::RiskManager;

fn d(m: i64, s: u32) -> Decimal {
    Decimal::new(m, s)
}

fn config(max_open: usize) -> RiskConfig {
    RiskConfig {
        max_drawdown_pct: d(5, 2),
        max_position_usd: d(50_000, 0),
        max_open_orders: max_open,
        daily_loss_limit_usd: d(1_000, 0),
        order_rate_limit_per_sec: 10,
    }
}

#[test]
fn validate_order_checks_count_then_notional() {
    let mut risk = RiskManager::new(config(1));
    let small = tentative_order("BTCUSDT", Side::Buy, OrderType::Limit, d(1, 0), Some(d(30_000, 0)));
    let big = tentative_order("BTCUSDT", Side::Buy, OrderType::Limit, d(2, 0), Some(d(30_000, 0)));
    let market = tentative_order("BTCUSDT", Side::Sell, OrderType::Market, d(1_000, 0), None);
    assert!(risk.validate_order(&small).is_ok());
    assert!(risk.validate_order(&market).is_ok());
    match risk.validate_order(&big) {
        Err(RiskError::Notional { notional, max_usd }) => {
            assert_eq!(notional, d(60_000, 0));
            assert_eq!(max_usd, d(50_000, 0));
        }
        other => panic!("unexpected {:?}", other),
    }
    risk.on_order_opened();
    match risk.validate_order(&small) {
        Err(RiskError::OpenOrderCount { current, max }) => {
            assert_eq!(current, 1);
            assert_eq!(max, 1);
        }
        other => panic!("unexpected {:?}", other),
    }
    risk.on_order_closed();
    assert!(risk.validate_order(&small).is_ok());
}

#[test]
fn execution_reports_move_the_inventory() {
    let mut risk = RiskManager::new(config(10));
    let rep = ExecutionReport {
        client_id: 3,
        symbol_id: 4,
        symbol: "ETHUSDT".into(),
        order_status: OrderStatus::Filled,
        executed_quantity: d(25, 1),
        price: d(2_000, 0),
        side: Side::Sell,
    };
    risk.on_execution_report(&rep);
    assert_eq!(risk.position_tracker().get_position(4), d(-25, 1));
    assert_eq!(risk.position_tracker().get_position(5), d(0, 0));
}

#[test]
fn tentative_order_is_pending_and_unfilled() {
    let o = tentative_order("ETHUSDT", Side::Sell, OrderType::Limit, d(3, 0), Some(d(2_500, 0)));
    assert_eq!(o.symbol, "ETHUSDT");
    assert_eq!(o.side, Side::Sell);
    assert_eq!(o.order_type, OrderType::Limit);
    assert_eq!(o.quantity, d(3, 0));
    assert_eq!(o.price.unwrap(), d(2_500, 0));
    assert!(o.filled_quantity.is_zero());
    assert_eq!(o.status, OrderStatus::Pending);
    assert!(o.exchange_id.is_none());
    assert!(!o.is_terminal());
    assert_eq!(o.remaining_quantity(), d(3, 0));
}

#[test]
fn pre_flight_requires_a_live_book_then_risk() {
    let risk = RiskManager::new(config(10));
    let ok = tentative_order("BTCUSDT", Side::Buy, OrderType::Limit, d(1, 0), Some(d(30_000, 0)));
    let too_big = tentative_order("BTCUSDT", Side::Buy, OrderType::Limit, d(2, 0), Some(d(30_000, 0)));
    assert!(matches!(pre_flight(&FeedState::Buffering, &risk, &ok), Err(SubmitRejection::BookNotLive)));
    assert!(matches!(
        pre_flight(&FeedState::Syncing { snapshot_seq: 3 }, &risk, &ok),
        Err(SubmitRejection::BookNotLive)
    ));
    assert!(pre_flight(&FeedState::Live, &risk, &ok).is_ok());
    assert!(matches!(
        pre_flight(&FeedState::Live, &risk, &too_big),
        Err(SubmitRejection::Risk(RiskError::Notional { .. }))
    ));
}

#[test]
fn rule_violations_read_as_messages() {
    assert_eq!(
        RiskError::OpenOrderCount { current: 20, max: 20 }.to_string(),
        "Risk check failed: open order count 20 >= max 20"
    );
    assert_eq!(
        RiskError::Notional { notional: d(600000, 1), max_usd: d(50_000, 0) }.to_string(),
        "Risk check failed: notional 60000.0 > max_position_usd 50000"
    );
    assert_eq!(RiskError::ZeroReferencePrice.to_string(), "Risk check failed: reference price is zero");
    assert_eq!(
        RiskError::PriceDeviation { deviation_bps: d(125, 1), tolerance_bps: 10 }.to_string(),
        "Risk check failed: price deviation 12.5 bps > tolerance 10 bps"
    );
    assert_eq!(
        SubmitRejection::BookNotLive.to_string(),
        "Execution rejected: Order book is not Live (re-syncing or disconnected)"
    );
    assert_eq!(
        SubmitRejection::Risk(RiskError::ZeroReferencePrice).to_string(),
        "Risk check failed: reference price is zero"
    );
}

#[test]
fn overflowing_notional_is_reported_by_the_guards() {
    let huge = Decimal::from_i128_with_scale(79228162514264337593543950335, 0);
    let risk = RiskManager::new(config(10));
    let o = tentative_order("BTCUSDT", Side::Buy, OrderType::Limit, huge, Some(d(2, 0)));
    assert!(try_check_notional(d(2, 0), huge, d(1, 0)).is_none());
    assert!(matches!(try_check_notional(d(2, 0), d(3, 0), d(5, 0)), Some(Err(RiskError::Notional { .. }))));
    assert!(matches!(try_check_notional(d(2, 0), d(2, 0), d(5, 0)), Some(Ok(()))));
    assert!(risk.try_validate_order(&o).is_none());
    assert!(try_pre_flight(&FeedState::Live, &risk, &o).is_none());
    assert!(matches!(try_pre_flight(&FeedState::Pending, &risk, &o), Some(Err(SubmitRejection::BookNotLive))));
    let ok = tentative_order("BTCUSDT", Side::Buy, OrderType::Limit, d(1, 0), Some(d(2, 0)));
    assert!(matches!(risk.try_validate_order(&ok), Some(Ok(()))));
}

#[test]
fn count_cap_rejects_before_the_notional_is_computed() {
    let huge = Decimal::from_i128_with_scale(79228162514264337593543950335, 0);
    let mut risk = RiskManager::new(config(1));
    risk.on_order_opened();
    let o = tentative_order("BTCUSDT", Side::Buy, OrderType::Limit, huge, Some(d(2, 0)));
    assert!(matches!(risk.validate_order(&o), Err(RiskError::OpenOrderCount { current: 1, max: 1 })));
    assert!(matches!(risk.try_validate_order(&o), Some(Err(RiskError::OpenOrderCount { .. }))));
    assert!(matches!(
        try_pre_flight(&FeedState::Live, &risk, &o),
        Some(Err(SubmitRejection::Risk(RiskError::OpenOrderCount { .. })))
    ));
}
