use lehman_cousins_core::domain::decimal::Decimal;
use lehman_cousins_core::domain::models::{ExecutionReport, OrderBookUpdate, OrderStatus, PriceLevel, Side, Timestamp};
use lehman_cousins_core::risk_manager::inventory::PositionTracker;
use lehman_cousins_core::domain::orderbook::OrderBook;
use lehman_cousins_core::order_manager::nonce::NonceGenerator;
use lehman_cousins_core::risk_manager::checks::check_open_order_count;

fn d(m: i64, s: u32) -> Decimal {
    Decimal::new(m, s)
}

fn lvl(p: i64, q: i64) -> PriceLevel {
    PriceLevel { price: d(p, 0), quantity: d(q, 0) }
}

fn update(bids: Vec<PriceLevel>, asks: Vec<PriceLevel>, seq: u64) -> OrderBookUpdate {
    OrderBookUpdate {
        symbol: "BTC-USDT".into(),
        bids,
        asks,
        sequence: seq,
        timestamp: Timestamp { secs: 0, nanos: 0 },
    }
}

#[test]
fn best_levels_are_extreme_whatever_the_update_order() {
    let mut book = OrderBook::new("BTC-USDT");
    book.apply(&update(vec![lvl(95, 1), lvl(101, 2), lvl(99, 3)], vec![lvl(110, 1), lvl(104, 1), lvl(107, 1)], 1));
    assert_eq!(book.best_bid().unwrap().price, d(101, 0));
    assert_eq!(book.best_ask().unwrap().price, d(104, 0));
    assert_eq!(book.bid_depth(), 3);
    assert_eq!(book.ask_depth(), 3);
    assert_eq!(book.sequence(), 1);
    assert_eq!(book.symbol(), "BTC-USDT");
}

#[test]
fn upsert_replaces_quantity_and_zero_deletes() {
    let mut book = OrderBook::new("BTC-USDT");
    book.apply(&update(vec![lvl(100, 1), lvl(99, 1)], vec![], 1));
    book.apply(&update(vec![lvl(100, 7)], vec![], 2));
    assert_eq!(book.best_bid().unwrap().quantity, d(7, 0));
    assert_eq!(book.bid_depth(), 2);
    book.apply(&update(vec![lvl(100, 0)], vec![], 3));
    assert_eq!(book.best_bid().unwrap().price, d(99, 0));
    assert_eq!(book.bid_depth(), 1);
}

#[test]
fn applying_an_update_twice_changes_nothing() {
    let mut book = OrderBook::new("BTC-USDT");
    let u = update(vec![lvl(100, 1)], vec![lvl(101, 1)], 4);
    book.apply(&u);
    book.apply(&u);
    assert_eq!(book.bid_depth(), 1);
    assert_eq!(book.ask_depth(), 1);
    assert_eq!(book.sequence(), 4);
    assert_eq!(book.spread().unwrap(), d(1, 0));
}

#[test]
fn nonce_exceeds_counter_and_clock() {
    assert_eq!(NonceGenerator::successor(10, 5), 11);
    assert_eq!(NonceGenerator::successor(5, 10), 11);
    assert_eq!(NonceGenerator::successor(u64::MAX, 3), 0);
    let mut g = NonceGenerator::default();
    let a = g.next();
    let b = g.next();
    assert!(b > a);
}

#[test]
fn open_order_cap_is_exclusive() {
    assert!(check_open_order_count(19, 20).is_ok());
    assert!(check_open_order_count(20, 20).is_err());
}

#[test]
fn position_is_the_net_of_executions() {
    let mut t = PositionTracker::new();
    let fills = [(Side::Buy, d(15, 1)), (Side::Sell, d(5, 1)), (Side::Buy, d(2, 0)), (Side::Sell, d(0, 0))];
    for (i, (side, qty)) in fills.iter().enumerate() {
        t.apply_execution(&ExecutionReport {
            client_id: i as u128,
            symbol_id: 3,
            symbol: "BTC-USDT".into(),
            order_status: OrderStatus::Filled,
            executed_quantity: *qty,
            price: d(100, 0),
            side: *side,
        });
    }
    assert_eq!(t.get_position(3), d(3, 0));
}

#[test]
fn seeded_generator_counts_up_from_its_seed() {
    let mut g = NonceGenerator::from_seed(41);
    let n = g.next();
    assert!(n > 41);
}
