//! The backtest run: top-of-book quotes read from CSV text
//! (`timestamp_ms,bid,ask`, with a header line) are replayed through the
//! spread strategy and the paper trader, which starts with 10 000 in cash;
//! the run ends with a mark-to-market valuation at the last mid price.

use vstd::prelude::*;
use crate::backtest::{
    DummyStatArb, PaperTrader, mtm_value, paper_fill, parsed_i64, spread_signal, top_of_book_event,
};
use crate::config::parse_i64;
use crate::domain::decimal::{
    Decimal, decimal_checked_add, decimal_checked_div, decimal_checked_sub, decimal_parse,
    rd_from_str, units,
};
use crate::domain::models::Side;
use crate::strategies::traits::Strategy;
use crate::utils::time::from_epoch_ms;

verus! {

/// What the `csv` crate reads from a text: the records after the header,
/// each a sequence of fields; `None` where it reports an error (such as a
/// record whose field count differs from the header's).
pub uninterp spec fn csv_records(text: Seq<char>) -> Option<Seq<Seq<Seq<char>>>>;

/// The fields of a series of records, as text.
pub open spec fn records_view(r: Seq<Vec<String>>) -> Seq<Seq<Seq<char>>> {
    r.map_values(|v: Vec<String>| v@.map_values(|s: String| s@))
}

/// Calls `csv::Reader::from_reader` on the text's bytes and collects
/// `records()`, each field as a `String`; `None` at the first record it
/// reports an error for.
#[verifier::external_body]
fn csv_parse(text: &str) -> (r: Option<Vec<Vec<String>>>)
    ensures
        match r {
            Some(v) => csv_records(text@) == Some(records_view(v@)),
            None => csv_records(text@) is None,
        },
{
    let mut reader = csv::Reader::from_reader(text.as_bytes());
    let mut out: Vec<Vec<String>> = Vec::new();
    for record in reader.records() {
        match record {
            Ok(rec) => out.push(rec.iter().map(|f| f.to_string()).collect()),
            Err(_) => return None,
        }
    }
    Some(out)
}

/// Why a replay stopped, with the index of the record (the number of
/// records when it stopped at the final valuation).
#[derive(Clone, Copy, Debug, PartialEq, Eq, Structural)]
pub enum ReplayError {
    /// The record lacks one of its three fields.
    ShortRecord { index: usize },
    /// A field of the record does not parse (timestamp as `i64`, prices as
    /// decimals).
    BadQuote { index: usize },
    /// The decimal arithmetic of the spread, of a fill or of the final
    /// valuation overflows.
    Overflow { index: usize },
}

/// Why a backtest run stopped.
#[derive(Clone, Copy, Debug, PartialEq, Eq, Structural)]
pub enum BacktestError {
    /// The CSV reader reported an error.
    Csv,
    /// The replay of the records stopped.
    Replay(ReplayError),
}

/// The outcome of a backtest run.
#[derive(Clone, Copy, Debug)]
pub struct BacktestReport {
    /// Number of quotes replayed.
    pub events: usize,
    pub cash: Decimal,
    pub position: Decimal,
    /// The mid price of the last quote (zero when there was none).
    pub mid: Decimal,
    /// `cash + position × mid`.
    pub mark_to_market: Decimal,
}

/// The state of a replay between records.
pub struct ReplayState {
    pub cash: (int, nat),
    pub position: (int, nat),
    pub last_bid: (int, nat),
    pub last_ask: (int, nat),
}

/// The state before the first record: 10 000 in cash, nothing held, zero
/// prices.
pub open spec fn replay_start() -> ReplayState {
    ReplayState {
        cash: (100000int, 1nat),
        position: (0int, 0nat),
        last_bid: (0int, 0nat),
        last_ask: (0int, 0nat),
    }
}

/// The taker fee rate of the paper trader (0.1%).
pub open spec fn taker_rate() -> (int, nat) {
    (1int, 3nat)
}

/// One record, number `i`: its fields are read in turn (timestamp, bid,
/// ask); the strategy trades 0.5 on the spread signal of the quote and the
/// trader fills the order.
pub open spec fn replay_step(st: ReplayState, rec: Seq<Seq<char>>, i: int) -> Result<
    ReplayState,
    ReplayError,
> {
    let idx = i as usize;
    if rec.len() < 1 {
        Err(ReplayError::ShortRecord { index: idx })
    } else if parsed_i64(rec[0]) is None {
        Err(ReplayError::BadQuote { index: idx })
    } else if rec.len() < 2 {
        Err(ReplayError::ShortRecord { index: idx })
    } else if decimal_parse(rec[1]) is None {
        Err(ReplayError::BadQuote { index: idx })
    } else if rec.len() < 3 {
        Err(ReplayError::ShortRecord { index: idx })
    } else if decimal_parse(rec[2]) is None {
        Err(ReplayError::BadQuote { index: idx })
    } else {
        let bid = decimal_parse(rec[1])->0;
        let ask = decimal_parse(rec[2])->0;
        match decimal_checked_sub(ask, bid) {
            None => Err(ReplayError::Overflow { index: idx }),
            Some(spread) => match spread_signal(units(spread)) {
                None => Ok(ReplayState { last_bid: bid, last_ask: ask, ..st }),
                Some(side) => match paper_fill(
                    st.cash,
                    st.position,
                    taker_rate(),
                    side,
                    (5int, 1nat),
                    bid,
                    ask,
                ) {
                    None => Err(ReplayError::Overflow { index: idx }),
                    Some((c, p)) => Ok(
                        ReplayState { cash: c, position: p, last_bid: bid, last_ask: ask },
                    ),
                },
            },
        }
    }
}

/// The state after replaying the records in order, or why it stopped.
pub open spec fn replay_records(recs: Seq<Seq<Seq<char>>>) -> Result<ReplayState, ReplayError>
    decreases recs.len(),
{
    if recs.len() == 0 {
        Ok(replay_start())
    } else {
        match replay_records(recs.drop_last()) {
            Err(e) => Err(e),
            Ok(st) => replay_step(st, recs.last(), recs.len() - 1),
        }
    }
}

/// Once a prefix of the records stops the replay, the whole replay stops
/// there.
proof fn lemma_stop_propagates(recs: Seq<Seq<Seq<char>>>, k: int)
    requires
        0 <= k <= recs.len(),
        replay_records(recs.take(k)) is Err,
    ensures
        replay_records(recs) == replay_records(recs.take(k)),
    decreases recs.len() - k,
{
    if k == recs.len() {
        assert(recs.take(k) =~= recs);
    } else {
        assert(recs.take(k + 1).drop_last() =~= recs.take(k));
        lemma_stop_propagates(recs, k + 1);
    }
}

/// The mid price of a quote: `(bid + ask) / 2.0`, `None` on overflow.
pub open spec fn mid_of(bid: (int, nat), ask: (int, nat)) -> Option<(int, nat)> {
    match decimal_checked_add(bid, ask) {
        None => None,
        Some(sum) => decimal_checked_div(sum, (20int, 1nat)),
    }
}

/// The report of a replay of `recs`: the final state, the last mid price
/// and the mark-to-market value at it; or why the replay stopped.
pub open spec fn replay_outcome(recs: Seq<Seq<Seq<char>>>) -> Result<
    (ReplayState, (int, nat), (int, nat)),
    ReplayError,
> {
    match replay_records(recs) {
        Err(e) => Err(e),
        Ok(st) => match mid_of(st.last_bid, st.last_ask) {
            None => Err(ReplayError::Overflow { index: recs.len() as usize }),
            Some(mid) => match mtm_value(
                crate::backtest::PaperModel {
                    cash: st.cash,
                    position: st.position,
                    taker_fee_rate: taker_rate(),
                },
                mid,
            ) {
                None => Err(ReplayError::Overflow { index: recs.len() as usize }),
                Some(v) => Ok((st, mid, v)),
            },
        },
    }
}

/// `r` is the report of the outcome `o` over `n` records.
pub open spec fn report_matches(
    r: Result<BacktestReport, ReplayError>,
    o: Result<(ReplayState, (int, nat), (int, nat)), ReplayError>,
    n: int,
) -> bool {
    match o {
        Err(e) => r == Err::<BacktestReport, ReplayError>(e),
        Ok((st, mid, v)) => r matches Ok(rep) && rep.events == n && rep.cash@ == st.cash
            && rep.position@ == st.position && rep.mid@ == mid && rep.mark_to_market@ == v,
    }
}

/// Replays quote records (each `timestamp_ms,bid,ask`): every quote is
/// turned into a top-of-book event for the spread strategy, whose orders
/// the paper trader fills at the quote; the report values the final
/// position at the last mid price. The run stops at the first record that
/// lacks a field, does not parse, or whose arithmetic overflows.
pub fn replay_quotes(records: &Vec<Vec<String>>) -> (r: Result<BacktestReport, ReplayError>)
    ensures
        report_matches(r, replay_outcome(records_view(records@)), records@.len() as int),
{
    let ghost recs = records_view(records@);
    let mut strategy = DummyStatArb;
    let mut trader = PaperTrader::new(Decimal::new(100000, 1));
    let mut last_bid = Decimal::zero();
    let mut last_ask = Decimal::zero();
    let mut i: usize = 0;
    proof {
        assert(recs.take(0) =~= Seq::<Seq<Seq<char>>>::empty());
    }
    while i < records.len()
        invariant
            i <= records@.len(),
            recs == records_view(records@),
            recs.len() == records@.len(),
            replay_records(recs.take(i as int)) matches Ok(st) && trader@.cash == st.cash
                && trader@.position == st.position && last_bid@ == st.last_bid && last_ask@
                == st.last_ask,
            trader@.taker_fee_rate == taker_rate(),
        decreases records@.len() - i,
    {
        let ghost before = replay_records(recs.take(i as int))->Ok_0;
        let rec = &records[i];
        proof {
            assert(recs.take(i as int + 1).drop_last() =~= recs.take(i as int));
            assert(recs.take(i as int + 1).last() == recs[i as int]);
            assert(recs[i as int] == rec@.map_values(|s: String| s@));
        }
        if rec.len() < 1 {
            proof {
                lemma_stop_propagates(recs, i as int + 1);
            }
            return Err(ReplayError::ShortRecord { index: i });
        }
        let ts = match parse_i64(rec[0].as_str()) {
            Some(t) => t,
            None => {
                proof {
                    lemma_stop_propagates(recs, i as int + 1);
                }
                return Err(ReplayError::BadQuote { index: i });
            },
        };
        if rec.len() < 2 {
            proof {
                lemma_stop_propagates(recs, i as int + 1);
            }
            return Err(ReplayError::ShortRecord { index: i });
        }
        let bid = match rd_from_str(rec[1].as_str()) {
            Some(b) => b,
            None => {
                proof {
                    lemma_stop_propagates(recs, i as int + 1);
                }
                return Err(ReplayError::BadQuote { index: i });
            },
        };
        if rec.len() < 3 {
            proof {
                lemma_stop_propagates(recs, i as int + 1);
            }
            return Err(ReplayError::ShortRecord { index: i });
        }
        let ask = match rd_from_str(rec[2].as_str()) {
            Some(a) => a,
            None => {
                proof {
                    lemma_stop_propagates(recs, i as int + 1);
                }
                return Err(ReplayError::BadQuote { index: i });
            },
        };
        if ask.checked_sub(&bid).is_none() {
            proof {
                lemma_stop_propagates(recs, i as int + 1);
            }
            return Err(ReplayError::Overflow { index: i });
        }
        last_bid = bid;
        last_ask = ask;
        let event = top_of_book_event("BTCUSDT", i as u64, from_epoch_ms(ts), bid, ask);
        match strategy.on_event(&event) {
            Some(orders) => {
                let ok = trader.try_execute(&orders[0], bid, ask);
                if !ok {
                    proof {
                        lemma_stop_propagates(recs, i as int + 1);
                    }
                    return Err(ReplayError::Overflow { index: i });
                }
            },
            None => {},
        }
        i = i + 1;
    }
    proof {
        assert(recs.take(recs.len() as int) =~= recs);
    }
    let mid = match last_bid.checked_add(&last_ask) {
        Some(sum) => match sum.checked_div(&Decimal::new(20, 1)) {
            Some(m) => m,
            None => return Err(ReplayError::Overflow { index: records.len() }),
        },
        None => return Err(ReplayError::Overflow { index: records.len() }),
    };
    let mtm = match trader.try_calculate_mtm(mid) {
        Some(v) => v,
        None => return Err(ReplayError::Overflow { index: records.len() }),
    };
    Ok(
        BacktestReport {
            events: records.len(),
            cash: trader.cash(),
            position: trader.position(),
            mid,
            mark_to_market: mtm,
        },
    )
}

/// A backtest run over CSV text: the records are read with the `csv`
/// crate, then replayed by [`replay_quotes`].
pub fn run_backtest(csv: &str) -> (r: Result<BacktestReport, BacktestError>)
    ensures
        csv_records(csv@) is None ==> r == Err::<BacktestReport, BacktestError>(BacktestError::Csv),
        csv_records(csv@) matches Some(recs) ==> match replay_outcome(recs) {
            Err(e) => r == Err::<BacktestReport, BacktestError>(BacktestError::Replay(e)),
            Ok((st, mid, v)) => r matches Ok(rep) && rep.events == recs.len() && rep.cash@
                == st.cash && rep.position@ == st.position && rep.mid@ == mid
                && rep.mark_to_market@ == v,
        },
{
    let records = match csv_parse(csv) {
        Some(r) => r,
        None => return Err(BacktestError::Csv),
    };
    match replay_quotes(&records) {
        Ok(rep) => Ok(rep),
        Err(e) => Err(BacktestError::Replay(e)),
    }
}

} // verus!
