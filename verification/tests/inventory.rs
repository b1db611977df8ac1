use lehman_cousins_core::domain::decimal::Decimal;
use lehman_cousins_core::domain::models::{ExecutionReport, OrderStatus, Side};
use lehman_cousins_core::risk_manager::inventory::PositionTracker;

#[test]
fn inventory_updates() {
    let mut tracker = PositionTracker::new();
    let sym = 42;

    let rep1 = ExecutionReport {
        client_id: uuid::Uuid::new_v4().as_u128(),
        symbol_id: sym,
        symbol: "BTC-USDT".into(),
        order_status: OrderStatus::Filled,
        executed_quantity: Decimal::new(15, 1),
        price: Decimal::new(100, 0),
        side: Side::Buy,
    };

    tracker.apply_execution(&rep1);
    assert_eq!(tracker.get_position(sym), Decimal::new(15, 1));

    let rep2 = ExecutionReport {
        client_id: uuid::Uuid::new_v4().as_u128(),
        symbol_id: sym,
        symbol: "BTC-USDT".into(),
        order_status: OrderStatus::Filled,
        executed_quantity: Decimal::new(5, 1),
        price: Decimal::new(100, 0),
        side: Side::Sell,
    };

    tracker.apply_execution(&rep2);
    assert_eq!(tracker.get_position(sym), Decimal::new(10, 1));
}

#[test]
fn unknown_symbol_has_zero_position_and_set_overrides() {
    let mut tracker = PositionTracker::new();
    assert_eq!(tracker.get_position(7), Decimal::new(0, 0));
    tracker.set_position(7, Decimal::new(-25, 1));
    assert_eq!(tracker.get_position(7), Decimal::new(-25, 1));
    let zero = ExecutionReport {
        client_id: 1,
        symbol_id: 7,
        symbol: "ETH-USDT".into(),
        order_status: OrderStatus::PartiallyFilled,
        executed_quantity: Decimal::new(0, 0),
        price: Decimal::new(100, 0),
        side: Side::Buy,
    };
    tracker.apply_execution(&zero);
    assert_eq!(tracker.get_position(7), Decimal::new(-25, 1));
}
