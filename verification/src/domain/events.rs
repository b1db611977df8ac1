//! Internal event bus types: the market events that flow from the feed
//! ingestion layer to the strategies.

use vstd::prelude::*;
use crate::domain::models::{ExecutionReport, OrderBookUpdate, Trade};

verus! {

/// All market events that flow through the internal broadcast bus.
#[derive(Clone, Debug)]
pub enum MarketEvent {
    /// A new trade was executed on the exchange.
    Trade(Trade),
    /// An order-book snapshot or incremental diff was received.
    OrderBook(OrderBookUpdate),
    /// The exchange connection was (re)established.
    Connected { exchange: String },
    /// The exchange connection was lost.
    Disconnected { exchange: String, reason: String },
    /// A private execution report for a managed order.
    ExecutionReport(ExecutionReport),
}

} // verus!
