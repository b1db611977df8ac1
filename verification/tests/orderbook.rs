use lehman_cousins_core::domain::decimal::Decimal;
use lehman_cousins_core::domain::models::{OrderBookUpdate, PriceLevel};
use lehman_cousins_core::domain::orderbook::{OrderBook, INITIAL_CAPACITY};
use lehman_cousins_core::utils::time::now;

fn d(m: i64, s: u32) -> Decimal {
    Decimal::new(m, s)
}

fn lvl(price: Decimal, qty: Decimal) -> PriceLevel {
    PriceLevel { price, quantity: qty }
}

fn make_update(bids: Vec<PriceLevel>, asks: Vec<PriceLevel>, seq: u64) -> OrderBookUpdate {
    OrderBookUpdate { symbol: "BTC-USDT".into(), bids, asks, sequence: seq, timestamp: now() }
}

#[test]
fn best_bid_ask_and_spread() {
    let mut book = OrderBook::new("BTC-USDT");
    book.apply(&make_update(
        vec![lvl(d(29_000, 0), d(15, 1)), lvl(d(28_990, 0), d(20, 1))],
        vec![lvl(d(29_010, 0), d(5, 1)), lvl(d(29_020, 0), d(10, 1))],
        1,
    ));
    assert_eq!(book.best_bid().unwrap().price, d(29_000, 0));
    assert_eq!(book.best_ask().unwrap().price, d(29_010, 0));
    assert_eq!(book.spread().unwrap(), d(10, 0));
    assert_eq!(book.mid_price().unwrap(), d(29_005, 0));
}

#[test]
fn level_removal_on_zero_quantity() {
    let mut book = OrderBook::new("BTC-USDT");
    book.apply(&make_update(vec![lvl(d(100, 0), d(5, 0))], vec![], 1));
    assert_eq!(book.bid_depth(), 1);

    // Remove level by sending qty=0
    book.apply(&make_update(vec![lvl(d(100, 0), d(0, 0))], vec![], 2));
    assert_eq!(book.bid_depth(), 0);
}

#[test]
fn stale_update_ignored() {
    let mut book = OrderBook::new("BTC-USDT");
    book.apply(&make_update(vec![lvl(d(100, 0), d(5, 0))], vec![], 5));
    book.apply(&make_update(vec![lvl(d(200, 0), d(5, 0))], vec![], 3)); // stale
    assert_eq!(book.best_bid().unwrap().price, d(100, 0)); // unchanged
}

#[test]
fn pre_allocated_no_realloc_during_warmup() {
    let book = OrderBook::new("ETH-USDT");
    assert!(book.bid_capacity() >= INITIAL_CAPACITY);
    assert!(book.ask_capacity() >= INITIAL_CAPACITY);
}
