//! Backtesting: a paper trader that fills at the worst side of the book
//! (buys at the ask, sells at the bid) and pays a 0.1% taker fee, and a
//! simple spread-driven strategy.

use vstd::prelude::*;
use crate::domain::decimal::{
    Decimal, decimal_checked_add, decimal_checked_mul, decimal_checked_sub, opt_view, pow10,
    representable, units,
};
use crate::config::{parse_i64, signed_value};
use crate::domain::decimal::{decimal_parse, rd_from_str};
use crate::domain::events::MarketEvent;
use crate::domain::models::{
    Order, OrderBookUpdate, OrderStatus, OrderType, PriceLevel, Side, Timestamp, new_client_id,
};
use crate::strategies::traits::{Strategy, StrategyError};
use crate::utils::time::now;

verus! {

/// The price a paper fill executes at: the ask for a buy, the bid for a
/// sell.
pub open spec fn fill_price(side: Side, bid: (int, nat), ask: (int, nat)) -> (int, nat) {
    match side {
        Side::Buy => ask,
        Side::Sell => bid,
    }
}

/// Cash and position after a paper fill of `qty` on `side`, computed with
/// decimal arithmetic: notional = price × qty, fee = notional × rate; a buy
/// pays notional + fee and adds qty, a sell receives notional − fee and
/// removes qty. `None` where a step overflows.
pub open spec fn paper_fill(
    cash: (int, nat),
    position: (int, nat),
    rate: (int, nat),
    side: Side,
    qty: (int, nat),
    bid: (int, nat),
    ask: (int, nat),
) -> Option<((int, nat), (int, nat))> {
    match decimal_checked_mul(fill_price(side, bid, ask), qty) {
        None => None,
        Some(notional) => match decimal_checked_mul(notional, rate) {
            None => None,
            Some(fee) => match side {
                Side::Buy => match decimal_checked_add(notional, fee) {
                    None => None,
                    Some(cost) => match (
                        decimal_checked_sub(cash, cost),
                        decimal_checked_add(position, qty),
                    ) {
                        (Some(c), Some(p)) => Some((c, p)),
                        _ => None,
                    },
                },
                Side::Sell => match decimal_checked_sub(notional, fee) {
                    None => None,
                    Some(proceeds) => match (
                        decimal_checked_add(cash, proceeds),
                        decimal_checked_sub(position, qty),
                    ) {
                        (Some(c), Some(p)) => Some((c, p)),
                        _ => None,
                    },
                },
            },
        },
    }
}

/// A paper fill in exact arithmetic, on values in units of 10^-28: the
/// cash and position after it, where every step of the decimal computation
/// is exact (each product divides out to a representable value, each sum
/// and difference is representable); `None` where some step is not.
pub open spec fn exact_fill(
    cash: int,
    position: int,
    rate: int,
    side: Side,
    qty: int,
    bid: int,
    ask: int,
) -> Option<(int, int)> {
    let price = match side {
        Side::Buy => ask,
        Side::Sell => bid,
    };
    let notional = price * qty / pow10(28);
    let fee = notional * rate / pow10(28);
    let new_cash = match side {
        Side::Buy => cash - (notional + fee),
        Side::Sell => cash + (notional - fee),
    };
    let new_position = match side {
        Side::Buy => position + qty,
        Side::Sell => position - qty,
    };
    let flow = match side {
        Side::Buy => notional + fee,
        Side::Sell => notional - fee,
    };
    if (price * qty) % pow10(28) == 0 && representable(notional) && (notional * rate) % pow10(28)
        == 0 && representable(fee) && representable(flow) && representable(new_cash)
        && representable(new_position) {
        Some((new_cash, new_position))
    } else {
        None
    }
}

/// The abstract state of a paper trader.
pub struct PaperModel {
    pub cash: (int, nat),
    pub position: (int, nat),
    pub taker_fee_rate: (int, nat),
}

/// A paper trader simulating strict exchange conditions.
pub struct PaperTrader {
    cash: Decimal,
    position: Decimal,
    taker_fee_rate: Decimal,
}

impl View for PaperTrader {
    type V = PaperModel;

    closed spec fn view(&self) -> PaperModel {
        PaperModel {
            cash: self.cash@,
            position: self.position@,
            taker_fee_rate: self.taker_fee_rate@,
        }
    }
}

impl PaperTrader {
    /// A trader holding `initial_cash` and no position, paying a 0.1%
    /// taker fee.
    pub fn new(initial_cash: Decimal) -> (r: PaperTrader)
        ensures
            r@.cash == initial_cash@,
            r@.position == (0int, 0nat),
            r@.taker_fee_rate == (1int, 3nat),
    {
        PaperTrader { cash: initial_cash, position: Decimal::zero(), taker_fee_rate: Decimal::new(1, 3) }
    }

    /// Cash held.
    pub fn cash(&self) -> (r: Decimal)
        ensures
            r@ == self@.cash,
    {
        self.cash
    }

    /// Position held.
    pub fn position(&self) -> (r: Decimal)
        ensures
            r@ == self@.position,
    {
        self.position
    }

    fn fill(&self, side: Side, qty: Decimal, current_bid: Decimal, current_ask: Decimal) -> (r:
        Option<(Decimal, Decimal)>)
        ensures
            match r {
                Some((c, p)) => paper_fill(
                    self@.cash,
                    self@.position,
                    self@.taker_fee_rate,
                    side,
                    qty@,
                    current_bid@,
                    current_ask@,
                ) == Some((c@, p@)),
                None => paper_fill(
                    self@.cash,
                    self@.position,
                    self@.taker_fee_rate,
                    side,
                    qty@,
                    current_bid@,
                    current_ask@,
                ) is None,
            },
            exact_fill(
                units(self@.cash),
                units(self@.position),
                units(self@.taker_fee_rate),
                side,
                qty.value(),
                current_bid.value(),
                current_ask.value(),
            ) matches Some((c, p)) ==> r matches Some((cd, pd)) && cd.value() == c && pd.value() == p,
    {
        let execution_price = match side {
            Side::Buy => current_ask,
            Side::Sell => current_bid,
        };
        let notional = match execution_price.checked_mul(&qty) {
            Some(n) => n,
            None => return None,
        };
        let fee = match notional.checked_mul(&self.taker_fee_rate) {
            Some(f) => f,
            None => return None,
        };
        match side {
            Side::Buy => {
                let cost = match notional.checked_add(&fee) {
                    Some(c) => c,
                    None => return None,
                };
                let cash = self.cash.checked_sub(&cost);
                let position = self.position.checked_add(&qty);
                match (cash, position) {
                    (Some(c), Some(p)) => Some((c, p)),
                    _ => None,
                }
            },
            Side::Sell => {
                let proceeds = match notional.checked_sub(&fee) {
                    Some(p) => p,
                    None => return None,
                };
                let cash = self.cash.checked_add(&proceeds);
                let position = self.position.checked_sub(&qty);
                match (cash, position) {
                    (Some(c), Some(p)) => Some((c, p)),
                    _ => None,
                }
            },
        }
    }

    /// Executes `order` at the worst side of the book: a buy at the ask, a
    /// sell at the bid, paying the taker fee. The computation must not
    /// overflow.
    pub fn execute(&mut self, order: &Order, current_bid: Decimal, current_ask: Decimal)
        requires
            paper_fill(
                old(self)@.cash,
                old(self)@.position,
                old(self)@.taker_fee_rate,
                order.side,
                order.quantity@,
                current_bid@,
                current_ask@,
            ) is Some || exact_fill(
                units(old(self)@.cash),
                units(old(self)@.position),
                units(old(self)@.taker_fee_rate),
                order.side,
                order.quantity.value(),
                current_bid.value(),
                current_ask.value(),
            ) is Some,
        ensures
            exact_fill(
                units(old(self)@.cash),
                units(old(self)@.position),
                units(old(self)@.taker_fee_rate),
                order.side,
                order.quantity.value(),
                current_bid.value(),
                current_ask.value(),
            ) matches Some((c, p)) ==> units(final(self)@.cash) == c && units(final(self)@.position)
                == p,
            ({
                let f = paper_fill(
                    old(self)@.cash,
                    old(self)@.position,
                    old(self)@.taker_fee_rate,
                    order.side,
                    order.quantity@,
                    current_bid@,
                    current_ask@,
                )->0;
                &&& final(self)@.cash == f.0
                &&& final(self)@.position == f.1
                &&& final(self)@.taker_fee_rate == old(self)@.taker_fee_rate
            }),
    {
        match self.fill(order.side, order.quantity, current_bid, current_ask) {
            Some((c, p)) => {
                self.cash = c;
                self.position = p;
            },
            None => {
                assert(false);
            },
        }
    }

    /// Executes `order` where the fill can be computed; returns `false`
    /// (and leaves the trader unchanged) where it would overflow.
    pub fn try_execute(&mut self, order: &Order, current_bid: Decimal, current_ask: Decimal) -> (r:
        bool)
        ensures
            r <==> paper_fill(
                old(self)@.cash,
                old(self)@.position,
                old(self)@.taker_fee_rate,
                order.side,
                order.quantity@,
                current_bid@,
                current_ask@,
            ) is Some,
            !r ==> final(self)@ == old(self)@,
            r ==> ({
                let f = paper_fill(
                    old(self)@.cash,
                    old(self)@.position,
                    old(self)@.taker_fee_rate,
                    order.side,
                    order.quantity@,
                    current_bid@,
                    current_ask@,
                )->0;
                &&& final(self)@.cash == f.0
                &&& final(self)@.position == f.1
                &&& final(self)@.taker_fee_rate == old(self)@.taker_fee_rate
            }),
            exact_fill(
                units(old(self)@.cash),
                units(old(self)@.position),
                units(old(self)@.taker_fee_rate),
                order.side,
                order.quantity.value(),
                current_bid.value(),
                current_ask.value(),
            ) matches Some((c, p)) ==> r && units(final(self)@.cash) == c && units(
                final(self)@.position,
            ) == p,
    {
        if self.fill(order.side, order.quantity, current_bid, current_ask).is_none() {
            return false;
        }
        self.execute(order, current_bid, current_ask);
        true
    }

    /// Mark-to-market value: `cash + position × mid`. The computation must
    /// not overflow.
    pub fn calculate_mtm(&self, current_mid: Decimal) -> (r: Decimal)
        requires
            mtm_value(self@, current_mid@) is Some,
        ensures
            Some(r@) == mtm_value(self@, current_mid@),
    {
        match self.position.checked_mul(&current_mid) {
            Some(v) => match self.cash.checked_add(&v) {
                Some(t) => t,
                None => {
                    assert(false);
                    current_mid
                },
            },
            None => {
                assert(false);
                current_mid
            },
        }
    }

    /// The mark-to-market value where it can be computed: `None` when a
    /// step overflows.
    pub fn try_calculate_mtm(&self, current_mid: Decimal) -> (r: Option<Decimal>)
        ensures
            opt_view(r) == mtm_value(self@, current_mid@),
    {
        let computable = match self.position.checked_mul(&current_mid) {
            Some(v) => self.cash.checked_add(&v).is_some(),
            None => false,
        };
        if !computable {
            return None;
        }
        Some(self.calculate_mtm(current_mid))
    }
}

/// `cash + position × mid` for a paper trader, computed with decimal
/// arithmetic; `None` where a step overflows.
pub open spec fn mtm_value(m: PaperModel, mid: (int, nat)) -> Option<(int, nat)> {
    match decimal_checked_mul(m.position, mid) {
        None => None,
        Some(v) => decimal_checked_add(m.cash, v),
    }
}

/// Cash and position after filling `orders` in turn, `None` if a fill
/// overflows.
pub open spec fn paper_fills(
    cash: (int, nat),
    position: (int, nat),
    rate: (int, nat),
    orders: Seq<Order>,
    bid: (int, nat),
    ask: (int, nat),
) -> Option<((int, nat), (int, nat))>
    decreases orders.len(),
{
    if orders.len() == 0 {
        Some((cash, position))
    } else {
        match paper_fills(cash, position, rate, orders.drop_last(), bid, ask) {
            None => None,
            Some((c, p)) => paper_fill(c, p, rate, orders.last().side, orders.last().quantity@, bid, ask),
        }
    }
}

impl PaperTrader {
    /// Fills `orders` in turn at the given top of book, stopping before the
    /// first fill that would overflow; returns how many were filled.
    pub fn fill_orders(&mut self, orders: &Vec<Order>, current_bid: Decimal, current_ask: Decimal) -> (r:
        usize)
        ensures
            r <= orders@.len(),
            paper_fills(
                old(self)@.cash,
                old(self)@.position,
                old(self)@.taker_fee_rate,
                orders@.subrange(0, r as int),
                current_bid@,
                current_ask@,
            ) == Some((final(self)@.cash, final(self)@.position)),
            final(self)@.taker_fee_rate == old(self)@.taker_fee_rate,
            r < orders@.len() ==> paper_fill(
                final(self)@.cash,
                final(self)@.position,
                final(self)@.taker_fee_rate,
                orders@[r as int].side,
                orders@[r as int].quantity@,
                current_bid@,
                current_ask@,
            ) is None,
    {
        let mut i: usize = 0;
        proof {
            assert(orders@.subrange(0, 0) =~= Seq::<Order>::empty());
        }
        while i < orders.len()
            invariant
                i <= orders@.len(),
                paper_fills(
                    old(self)@.cash,
                    old(self)@.position,
                    old(self)@.taker_fee_rate,
                    orders@.subrange(0, i as int),
                    current_bid@,
                    current_ask@,
                ) == Some((self@.cash, self@.position)),
                self@.taker_fee_rate == old(self)@.taker_fee_rate,
            decreases orders@.len() - i,
        {
            let ok = self.try_execute(&orders[i], current_bid, current_ask);
            if !ok {
                return i;
            }
            proof {
                let s = orders@.subrange(0, i as int + 1);
                assert(s.drop_last() =~= orders@.subrange(0, i as int));
                assert(s.last() == orders@[i as int]);
            }
            i = i + 1;
        }
        i
    }
}

/// A quote line of a backtest file, as its three fields: a timestamp in
/// milliseconds and a bid and an ask as decimal text. `None` when a field
/// does not parse.
pub fn parse_quote(timestamp_ms: &str, bid: &str, ask: &str) -> (r: Option<(i64, Decimal, Decimal)>)
    ensures
        r is Some <==> (parsed_i64(timestamp_ms@) is Some && decimal_parse(bid@) is Some
            && decimal_parse(ask@) is Some),
        r matches Some((t, b, a)) ==> Some(t as int) == parsed_i64(timestamp_ms@) && Some(b@)
            == decimal_parse(bid@) && Some(a@) == decimal_parse(ask@),
{
    let t = match parse_i64(timestamp_ms) {
        Some(t) => t,
        None => return None,
    };
    let b = match rd_from_str(bid) {
        Some(b) => b,
        None => return None,
    };
    let a = match rd_from_str(ask) {
        Some(a) => a,
        None => return None,
    };
    Some((t, b, a))
}

/// The value `str::parse::<i64>` gives for a text.
pub open spec fn parsed_i64(s: Seq<char>) -> Option<int> {
    match signed_value(s) {
        Some(n) => if i64::MIN <= n <= i64::MAX {
            Some(n)
        } else {
            None
        },
        None => None,
    }
}

/// The top-of-book event a backtest replays for one quote: one bid and one
/// ask level, each of size 10.
pub fn top_of_book_event(symbol: &str, sequence: u64, timestamp: Timestamp, bid: Decimal, ask: Decimal) -> (r:
    MarketEvent)
    ensures
        r matches MarketEvent::OrderBook(u) && u.symbol@ == symbol@ && u.sequence == sequence
            && u.timestamp == timestamp && u.bids@.len() == 1 && u.asks@.len() == 1
            && u.bids@[0].price == bid && u.asks@[0].price == ask && u.bids@[0].quantity@ == (
        100int, 1nat) && u.asks@[0].quantity@ == (100int, 1nat),
{
    let mut bids = Vec::new();
    bids.push(PriceLevel { price: bid, quantity: Decimal::new(100, 1) });
    let mut asks = Vec::new();
    asks.push(PriceLevel { price: ask, quantity: Decimal::new(100, 1) });
    MarketEvent::OrderBook(OrderBookUpdate { symbol: symbol.to_owned(), bids, asks, sequence, timestamp })
}

/// The side the spread strategy trades for a spread (ask − bid), given in
/// units of 10^-28: buy below 0.5, sell above 2.0, nothing in between.
pub open spec fn spread_signal(spread_units: int) -> Option<Side> {
    if spread_units < 5 * pow10(27) {
        Some(Side::Buy)
    } else if spread_units > 2 * pow10(28) {
        Some(Side::Sell)
    } else {
        None
    }
}

/// `o` is a pending market order for 0.5 of `symbol` on `side`, nothing
/// filled.
pub open spec fn is_signal_order(o: Order, symbol: Seq<char>, side: Side) -> bool {
    &&& o.exchange_id is None
    &&& o.symbol@ == symbol
    &&& o.side == side
    &&& o.order_type == OrderType::Market
    &&& o.price is None
    &&& o.quantity@ == (5int, 1nat)
    &&& o.filled_quantity@ == (0int, 0nat)
    &&& o.status == OrderStatus::Pending
}

/// A dummy spread-driven strategy: on each order-book event it buys 0.5 at
/// market when the top-of-book spread is below 0.5 and sells 0.5 when it
/// is above 2.0.
pub struct DummyStatArb;

impl DummyStatArb {
    fn signal_order(symbol: &String, side: Side) -> (r: Order)
        ensures
            is_signal_order(r, symbol@, side),
    {
        let t = now();
        Order {
            client_id: new_client_id(),
            exchange_id: None,
            symbol: symbol.clone(),
            side,
            order_type: OrderType::Market,
            price: None,
            quantity: Decimal::new(5, 1),
            filled_quantity: Decimal::new(0, 0),
            status: OrderStatus::Pending,
            created_at: t,
            updated_at: t,
        }
    }
}

impl Strategy for DummyStatArb {
    fn name(&self) -> (r: &str)
        ensures
            r@ == "DummyStatArb"@,
    {
        "DummyStatArb"
    }

    /// Nothing to prepare: always succeeds.
    fn on_start(&mut self) -> (r: Result<(), StrategyError>)
        ensures
            r is Ok,
    {
        Ok(())
    }

    /// Trades on order-book events only; an event with an empty side, or
    /// whose spread cannot be computed, yields nothing.
    fn on_event(&mut self, event: &MarketEvent) -> (r: Option<Vec<Order>>)
        ensures
            match *event {
                MarketEvent::OrderBook(ob) => if ob.bids@.len() == 0 || ob.asks@.len() == 0 {
                    r is None
                } else {
                    match decimal_checked_sub(ob.asks@[0].price@, ob.bids@[0].price@) {
                        None => r is None,
                        Some(s) => match spread_signal(units(s)) {
                            None => r is None,
                            Some(side) => r matches Some(v) && v@.len() == 1 && is_signal_order(
                                v@[0],
                                ob.symbol@,
                                side,
                            ),
                        },
                    }
                },
                _ => r is None,
            },
    {
        match event {
            MarketEvent::OrderBook(ob) => {
                if ob.bids.len() == 0 || ob.asks.len() == 0 {
                    return None;
                }
                let bid = ob.bids[0].price;
                let ask = ob.asks[0].price;
                let spread = match ask.checked_sub(&bid) {
                    Some(s) => s,
                    None => return None,
                };
                let half = Decimal::new(5, 1);
                let two = Decimal::new(20, 1);
                proof {
                    crate::domain::decimal::lemma_pow10_positive(27);
                    assert(pow10(28) == 10 * pow10(27));
                    assert(half.value() == 5 * pow10(27));
                    assert(two.value() == 20 * pow10(27));
                }
                if spread.less_than(&half) {
                    let mut v = Vec::new();
                    v.push(Self::signal_order(&ob.symbol, Side::Buy));
                    Some(v)
                } else if spread.greater_than(&two) {
                    let mut v = Vec::new();
                    v.push(Self::signal_order(&ob.symbol, Side::Sell));
                    Some(v)
                } else {
                    None
                }
            },
            _ => None,
        }
    }

    /// Nothing to release: always succeeds.
    fn on_stop(&mut self) -> (r: Result<(), StrategyError>)
        ensures
            r is Ok,
    {
        Ok(())
    }
}

} // verus!
