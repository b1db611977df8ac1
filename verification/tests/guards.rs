use lehman_cousins_core::config::RiskConfig;
use lehman_cousins_core::domain::decimal::Decimal;
use lehman_cousins_core::domain::models::{
    ExecutionReport, Order, OrderBookUpdate, OrderStatus, OrderType, PriceLevel, Side, Timestamp,
};
use lehman_cousins_core::domain::orderbook::OrderBook;
use lehman_cousins_core::order_manager::in_flight::InFlightTracker;
use lehman_cousins_core::risk_manager::inventory::PositionTracker;
use lehman_cousins_core::risk_manager::manager::RiskManager;

fn d(m: i64, s: u32) -> Decimal {
    Decimal::new(m, s)
}

fn max() -> Decimal {
    Decimal::from_i128_with_scale(79228162514264337593543950335, 0)
}

fn neg_max() -> Decimal {
    Decimal::from_i128_with_scale(-79228162514264337593543950335, 0)
}

fn order(qty: Decimal, filled: Decimal) -> Order {
    let t = Timestamp { secs: 0, nanos: 0 };
    Order {
        client_id: 11,
        exchange_id: None,
        symbol: "BTCUSDT".to_string(),
        side: Side::Buy,
        order_type: OrderType::Limit,
        price: Some(d(100, 0)),
        quantity: qty,
        filled_quantity: filled,
        status: OrderStatus::PartiallyFilled,
        created_at: t,
        updated_at: t,
    }
}

fn report(id: u128, sym: u32, side: Side, qty: Decimal) -> ExecutionReport {
    ExecutionReport {
        client_id: id,
        symbol_id: sym,
        symbol: "BTCUSDT".into(),
        order_status: OrderStatus::PartiallyFilled,
        executed_quantity: qty,
        price: d(100, 0),
        side,
    }
}

#[test]
fn remaining_quantity_guard() {
    assert_eq!(order(d(5, 0), d(2, 0)).try_remaining_quantity().unwrap(), d(3, 0));
    assert!(order(max(), neg_max()).try_remaining_quantity().is_none());
}

#[test]
fn book_price_guards() {
    let mut book = OrderBook::new("BTC-USDT");
    assert_eq!(book.try_mid_price(), Some(None));
    assert_eq!(book.try_spread(), Some(None));
    book.apply(&OrderBookUpdate {
        symbol: "BTC-USDT".into(),
        bids: vec![PriceLevel { price: d(99, 0), quantity: d(1, 0) }],
        asks: vec![PriceLevel { price: d(101, 0), quantity: d(1, 0) }],
        sequence: 1,
        timestamp: Timestamp { secs: 0, nanos: 0 },
    });
    assert_eq!(book.try_mid_price().unwrap().unwrap(), d(100, 0));
    assert_eq!(book.try_spread().unwrap().unwrap(), d(2, 0));

    let mut wide = OrderBook::new("X");
    wide.apply(&OrderBookUpdate {
        symbol: "X".into(),
        bids: vec![PriceLevel { price: neg_max(), quantity: d(1, 0) }],
        asks: vec![PriceLevel { price: max(), quantity: d(1, 0) }],
        sequence: 1,
        timestamp: Timestamp { secs: 0, nanos: 0 },
    });
    assert!(wide.try_spread().is_none());
    assert_eq!(wide.try_mid_price().unwrap().unwrap(), d(0, 0));
}

#[test]
fn execution_guards_leave_state_unchanged_on_overflow() {
    let mut t = InFlightTracker::new();
    let mut o = order(d(1, 0), d(0, 0));
    o.client_id = 4;
    t.register_order(o);
    assert_eq!(t.try_process_execution(&report(4, 1, Side::Buy, d(5, 1))), Some(Some(d(5, 1))));
    assert_eq!(t.try_process_execution(&report(4, 1, Side::Buy, neg_max())), None);
    assert_eq!(t.try_process_execution(&report(4, 1, Side::Buy, d(7, 1))), Some(Some(d(2, 1))));
    assert_eq!(t.try_process_execution(&report(99, 1, Side::Buy, d(1, 0))), Some(None));

    let mut p = PositionTracker::new();
    p.set_position(2, max());
    assert!(!p.try_apply_execution(&report(1, 2, Side::Buy, d(1, 0))));
    assert_eq!(p.get_position(2), max());
    assert!(p.try_apply_execution(&report(1, 2, Side::Sell, d(1, 0))));

    let mut risk = RiskManager::new(RiskConfig {
        max_drawdown_pct: d(5, 2),
        max_position_usd: d(50_000, 0),
        max_open_orders: 20,
        daily_loss_limit_usd: d(1_000, 0),
        order_rate_limit_per_sec: 10,
    });
    assert!(risk.try_on_execution_report(&report(1, 3, Side::Sell, neg_max())));
    assert_eq!(risk.position_tracker().get_position(3), max());
    assert!(!risk.try_on_execution_report(&report(1, 3, Side::Buy, d(1, 0))));
    assert_eq!(risk.position_tracker().get_position(3), max());
}
