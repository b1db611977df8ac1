use lehman_cousins_core::backtest::{parse_quote, top_of_book_event, DummyStatArb, PaperTrader};
use lehman_cousins_core::domain::decimal::Decimal;
use lehman_cousins_core::domain::events::MarketEvent;
use lehman_cousins_core::domain::models::{Order, OrderStatus, OrderType, Side, Timestamp};
use lehman_cousins_core::strategies::traits::Strategy;
use lehman_cousins_core::replay::{run_backtest, BacktestError, ReplayError};
use lehman_cousins_core::utils::time::from_epoch_ms;

fn d(m: i64, s: u32) -> Decimal {
    Decimal::new(m, s)
}

fn market(side: Side, qty: Decimal) -> Order {
    let t = Timestamp { secs: 0, nanos: 0 };
    Order {
        client_id: 1,
        exchange_id: None,
        symbol: "BTCUSDT".to_string(),
        side,
        order_type: OrderType::Market,
        price: None,
        quantity: qty,
        filled_quantity: Decimal::zero(),
        status: OrderStatus::Pending,
        created_at: t,
        updated_at: t,
    }
}

#[test]
fn buy_fills_at_ask_and_pays_fee() {
    let mut trader = PaperTrader::new(d(100000, 1));
    trader.execute(&market(Side::Buy, d(5, 1)), d(649980, 1), d(650025, 1));
    // notional 32501.25, fee 32.50125
    assert_eq!(trader.cash(), d(-2253375125, 5));
    assert_eq!(trader.position(), d(5, 1));
}

#[test]
fn sell_fills_at_bid_and_pays_fee() {
    let mut trader = PaperTrader::new(d(100000, 1));
    trader.execute(&market(Side::Sell, d(5, 1)), d(649980, 1), d(650025, 1));
    assert_eq!(trader.cash(), d(4246650100, 5));
    assert_eq!(trader.position(), d(-5, 1));
}

#[test]
fn mark_to_market_values_position_at_mid() {
    let mut trader = PaperTrader::new(d(100000, 1));
    assert_eq!(trader.calculate_mtm(d(650021, 1)), d(100000, 1));
    trader.execute(&market(Side::Sell, d(5, 1)), d(649980, 1), d(650025, 1));
    assert_eq!(trader.calculate_mtm(d(649980, 1)), d(996750100, 5));
}

#[test]
fn overflowing_fill_leaves_trader_unchanged() {
    let huge = Decimal::from_i128_with_scale(79228162514264337593543950335, 0);
    let mut trader = PaperTrader::new(d(100, 0));
    let orders = vec![market(Side::Buy, d(1, 0)), market(Side::Buy, huge)];
    let filled = trader.fill_orders(&orders, d(1, 0), d(2, 0));
    assert_eq!(filled, 1);
    assert_eq!(trader.position(), d(1, 0));
    assert_eq!(trader.cash(), d(97998, 3));
    assert!(!trader.try_execute(&market(Side::Buy, huge), d(1, 0), d(2, 0)));
    assert_eq!(trader.cash(), d(97998, 3));
}

#[test]
fn strategy_buys_on_tight_and_sells_on_wide_spread() {
    let mut s = DummyStatArb;
    let t = Timestamp { secs: 0, nanos: 0 };
    let tight = top_of_book_event("BTCUSDT", 0, t, d(650050, 1), d(650051, 1));
    let orders = s.on_event(&tight).unwrap();
    assert_eq!(orders.len(), 1);
    assert_eq!(orders[0].side, Side::Buy);
    assert_eq!(orders[0].order_type, OrderType::Market);
    assert_eq!(orders[0].quantity, d(5, 1));
    assert!(orders[0].price.is_none());
    assert_eq!(orders[0].symbol, "BTCUSDT");

    let wide = top_of_book_event("BTCUSDT", 1, t, d(649980, 1), d(650025, 1));
    assert_eq!(s.on_event(&wide).unwrap()[0].side, Side::Sell);

    // Boundaries: a spread of exactly 0.5 or exactly 2.0 does nothing.
    assert!(s.on_event(&top_of_book_event("BTCUSDT", 2, t, d(650005, 1), d(650010, 1))).is_none());
    assert!(s.on_event(&top_of_book_event("BTCUSDT", 3, t, d(650000, 1), d(650020, 1))).is_none());
    assert!(s.on_event(&MarketEvent::Connected { exchange: "bybit".into() }).is_none());
    assert_eq!(s.name(), "DummyStatArb");
}

#[test]
fn top_of_book_event_has_one_level_of_ten_per_side() {
    let t = Timestamp { secs: 5, nanos: 6 };
    match top_of_book_event("ETHUSDT", 9, t, d(10, 0), d(11, 0)) {
        MarketEvent::OrderBook(u) => {
            assert_eq!(u.symbol, "ETHUSDT");
            assert_eq!(u.sequence, 9);
            assert_eq!(u.timestamp, t);
            assert_eq!(u.bids.len(), 1);
            assert_eq!(u.asks.len(), 1);
            assert_eq!(u.bids[0].price, d(10, 0));
            assert_eq!(u.asks[0].price, d(11, 0));
            assert_eq!(u.bids[0].quantity, d(10, 0));
        }
        _ => panic!("expected an order-book event"),
    }
}

#[test]
fn mock_quotes_backtest_report() {
    let quotes: [(i64, Decimal, Decimal); 6] = [
        (1672531200000, d(650000, 1), d(650020, 1)),
        (1672531201000, d(650005, 1), d(650010, 1)),
        (1672531202000, d(649980, 1), d(650025, 1)),
        (1672531203000, d(650050, 1), d(650051, 1)),
        (1672531204000, d(650060, 1), d(650080, 1)),
        (1672531205000, d(650020, 1), d(650022, 1)),
    ];
    let mut strategy = DummyStatArb;
    strategy.on_start().unwrap();
    let mut trader = PaperTrader::new(d(100000, 1));
    let mut seq = 0u64;
    for (ts, bid, ask) in quotes.iter() {
        let event = top_of_book_event("BTCUSDT", seq, from_epoch_ms(*ts), *bid, *ask);
        seq += 1;
        if let Some(orders) = strategy.on_event(&event) {
            assert_eq!(trader.fill_orders(&orders, *bid, *ask), orders.len());
        }
    }
    strategy.on_stop().unwrap();
    let mid = d(650020, 1).checked_add(&d(650022, 1)).unwrap().checked_div(&d(20, 1)).unwrap();
    assert_eq!(mid, d(650021, 1));
    assert_eq!(trader.position(), d(5, 1));
    assert_eq!(trader.cash(), d(-2260215265, 5));
    assert_eq!(trader.calculate_mtm(mid), d(989889735, 5));
}

#[test]
fn mark_to_market_guard_reports_overflow() {
    let huge = Decimal::from_i128_with_scale(79228162514264337593543950335, 0);
    let mut trader = PaperTrader::new(d(0, 0));
    trader.execute(&market(Side::Sell, d(2, 0)), d(1, 0), d(1, 0));
    assert!(trader.try_calculate_mtm(huge).is_none());
    assert_eq!(trader.try_calculate_mtm(d(1, 0)).unwrap(), d(-2, 3));
}

#[test]
fn buying_half_at_102_pays_notional_and_fee() {
    let mut trader = PaperTrader::new(d(10000, 0));
    trader.execute(&market(Side::Buy, d(5, 1)), d(101, 0), d(102, 0));
    assert_eq!(trader.cash(), d(9948949, 3));
    assert_eq!(trader.position(), d(5, 1));
}

#[test]
fn quote_lines_parse_or_are_refused() {
    let (t, b, a) = parse_quote("1672531200000", "65000.5", "65001.0").unwrap();
    assert_eq!(t, 1672531200000);
    assert_eq!(b, d(650005, 1));
    assert_eq!(a, d(650010, 1));
    assert_eq!(a.to_string(), "65001.0");
    assert_eq!(parse_quote("-5", "1", "2").unwrap().0, -5);
    assert!(parse_quote("12x", "1", "2").is_none());
    assert!(parse_quote("1", "abc", "2").is_none());
    assert!(parse_quote("1", "1", "").is_none());
}

#[test]
fn csv_backtest_report() {
    let csv = "timestamp_ms,bid,ask\n1672531200000,65000.0,65002.0\n1672531201000,65000.5,65001.0\n1672531202000,64998.0,65002.5\n1672531203000,65005.0,65005.1\n1672531204000,65006.0,65008.0\n1672531205000,65002.0,65002.2\n";
    let report = run_backtest(csv).unwrap();
    assert_eq!(report.events, 6);
    assert_eq!(report.position, d(5, 1));
    assert_eq!(report.cash, d(-2260215265, 5));
    assert_eq!(report.mid, d(650021, 1));
    assert_eq!(report.mark_to_market, d(989889735, 5));
}

#[test]
fn csv_backtest_errors() {
    assert_eq!(run_backtest("timestamp_ms,bid,ask\n1,2\n").unwrap_err(), BacktestError::Csv);
    assert_eq!(
        run_backtest("timestamp_ms,bid,ask\n1,2,3\nx,2,3\n").unwrap_err(),
        BacktestError::Replay(ReplayError::BadQuote { index: 1 })
    );
    let empty = run_backtest("timestamp_ms,bid,ask\n").unwrap();
    assert_eq!(empty.events, 0);
    assert_eq!(empty.mark_to_market, d(100000, 1));
}
