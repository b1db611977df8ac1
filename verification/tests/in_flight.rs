use lehman_cousins_core::domain::decimal::Decimal;
use lehman_cousins_core::domain::models::{ExecutionReport, Order, OrderStatus, OrderType, Side, Timestamp};
use lehman_cousins_core::order_manager::in_flight::{expired_ids, InFlightTracker};
use std::time::{Duration, Instant};

fn d(m: i64, s: u32) -> Decimal {
    Decimal::new(m, s)
}

fn order(id: u128) -> Order {
    let t = Timestamp { secs: 0, nanos: 0 };
    Order {
        client_id: id,
        exchange_id: None,
        symbol: "BTCUSDT".to_string(),
        side: Side::Buy,
        order_type: OrderType::Limit,
        price: Some(d(100, 0)),
        quantity: d(1, 0),
        filled_quantity: Decimal::zero(),
        status: OrderStatus::Pending,
        created_at: t,
        updated_at: t,
    }
}

fn report(id: u128, status: OrderStatus, cumulative: Decimal) -> ExecutionReport {
    ExecutionReport {
        client_id: id,
        symbol_id: 1,
        symbol: "BTCUSDT".into(),
        order_status: status,
        executed_quantity: cumulative,
        price: d(100, 0),
        side: Side::Buy,
    }
}

#[test]
fn cumulative_reports_yield_fill_deltas() {
    let mut t = InFlightTracker::new();
    t.register_order(order(9));
    assert_eq!(t.process_execution(&report(9, OrderStatus::PartiallyFilled, d(3, 1))).unwrap(), d(3, 1));
    // The same cumulative report again adds nothing.
    assert_eq!(t.process_execution(&report(9, OrderStatus::PartiallyFilled, d(3, 1))).unwrap(), d(0, 0));
    assert_eq!(t.process_execution(&report(9, OrderStatus::PartiallyFilled, d(5, 1))).unwrap(), d(2, 1));
    assert_eq!(t.process_execution(&report(9, OrderStatus::Filled, d(1, 0))).unwrap(), d(5, 1));
    // A filled order has left the tracker.
    assert!(t.process_execution(&report(9, OrderStatus::Filled, d(1, 0))).is_none());
}

#[test]
fn unknown_and_cancelled_orders() {
    let mut t = InFlightTracker::default();
    assert!(t.process_execution(&report(1, OrderStatus::Open, d(0, 0))).is_none());
    t.register_order(order(2));
    assert_eq!(t.process_execution(&report(2, OrderStatus::Cancelled, d(0, 0))).unwrap(), d(0, 0));
    assert!(t.process_execution(&report(2, OrderStatus::Open, d(0, 0))).is_none());
}

#[test]
fn reaper_drops_only_expired_orders() {
    let mut t = InFlightTracker::new();
    t.register_order(order(5));
    t.register_order(order(6));
    assert!(t.reap_expired(Duration::from_secs(30).as_nanos()).is_empty());
    let start = Instant::now();
    while start.elapsed() < Duration::from_millis(2) {}
    let mut ghosts = t.reap_expired(0);
    ghosts.sort();
    assert_eq!(ghosts, vec![5, 6]);
    assert!(t.process_execution(&report(5, OrderStatus::Filled, d(1, 0))).is_none());
    assert!(t.reap_expired(0).is_empty());
}

#[test]
fn expired_selection_keeps_reading_order() {
    let ages: Vec<(u128, u128)> = vec![(7, 50), (3, 10), (9, 31), (4, 30)];
    assert_eq!(expired_ids(&ages, 30), vec![7, 9]);
    assert!(expired_ids(&ages, 50).is_empty());
    assert_eq!(expired_ids(&ages, 0), vec![7, 3, 9, 4]);
}
