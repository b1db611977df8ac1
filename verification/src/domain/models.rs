//! Core domain models: the shared vocabulary of the whole system.
//! Exchange clients normalise their payloads into these types.

use vstd::prelude::*;
use crate::domain::decimal::{Decimal, decimal_checked_sub, opt_view, representable};

verus! {

/// Compact integer identifier of a traded symbol.
pub type SymbolId = u32;

/// A point in time: seconds since the Unix epoch plus the nanoseconds
/// within that second (`0 <= nanos < 1_000_000_000`).
#[derive(Clone, Copy, Debug, PartialEq, Eq, Structural)]
pub struct Timestamp {
    pub secs: i64,
    pub nanos: u32,
}

/// A single price level in an order book (price + quantity).
#[derive(Clone, Copy, Debug)]
pub struct PriceLevel {
    pub price: Decimal,
    pub quantity: Decimal,
}

/// A normalised trade tick received from an exchange feed.
#[derive(Clone, Debug)]
pub struct Trade {
    /// The trade identifier (a UUID as a 128-bit integer).
    pub id: u128,
    pub symbol: String,
    pub price: Decimal,
    pub quantity: Decimal,
    pub side: Side,
    pub timestamp: Timestamp,
}

/// An order-book snapshot or incremental update.
#[derive(Clone, Debug)]
pub struct OrderBookUpdate {
    pub symbol: String,
    pub bids: Vec<PriceLevel>,
    pub asks: Vec<PriceLevel>,
    pub sequence: u64,
    pub timestamp: Timestamp,
}

/// Direction of a trade or order.
#[derive(Clone, Copy, Debug, PartialEq, Eq, Structural)]
pub enum Side {
    Buy,
    Sell,
}

/// Execution type.
#[derive(Clone, Copy, Debug, PartialEq, Eq, Structural)]
pub enum OrderType {
    Limit,
    Market,
    PostOnly,
}

/// Current lifecycle state of an order.
#[derive(Clone, Copy, Debug, PartialEq, Eq, Structural)]
pub enum OrderStatus {
    Pending,
    Open,
    PartiallyFilled,
    Filled,
    Cancelled,
    Rejected,
}

/// An order submitted to or tracked on an exchange.
#[derive(Clone, Debug)]
pub struct Order {
    /// Client-side identifier (a UUID as a 128-bit integer).
    pub client_id: u128,
    pub exchange_id: Option<String>,
    pub symbol: String,
    pub side: Side,
    pub order_type: OrderType,
    pub price: Option<Decimal>,
    pub quantity: Decimal,
    pub filled_quantity: Decimal,
    pub status: OrderStatus,
    pub created_at: Timestamp,
    pub updated_at: Timestamp,
}

/// A private execution report for a managed order.
#[derive(Clone, Debug)]
pub struct ExecutionReport {
    pub client_id: u128,
    pub symbol_id: SymbolId,
    pub symbol: String,
    pub order_status: OrderStatus,
    /// Cumulative executed quantity of the order.
    pub executed_quantity: Decimal,
    pub price: Decimal,
    pub side: Side,
}

/// Filled, cancelled and rejected orders are terminal.
pub open spec fn status_is_terminal(s: OrderStatus) -> bool {
    s is Filled || s is Cancelled || s is Rejected
}

impl Order {
    /// Quantity still to be filled: `quantity - filled_quantity`.
    ///
    /// The difference must be computable without overflow.
    pub fn remaining_quantity(&self) -> (r: Decimal)
        requires
            decimal_checked_sub(self.quantity@, self.filled_quantity@) is Some,
        ensures
            Some(r@) == decimal_checked_sub(self.quantity@, self.filled_quantity@),
            representable(self.quantity.value() - self.filled_quantity.value()) ==> r.value()
                == self.quantity.value() - self.filled_quantity.value(),
    {
        match self.quantity.checked_sub(&self.filled_quantity) {
            Some(d) => d,
            None => {
                assert(false);
                Decimal::zero()
            },
        }
    }

    /// The quantity still to be filled where it can be computed: `None`
    /// when `quantity - filled_quantity` overflows.
    pub fn try_remaining_quantity(&self) -> (r: Option<Decimal>)
        ensures
            opt_view(r) == decimal_checked_sub(self.quantity@, self.filled_quantity@),
            representable(self.quantity.value() - self.filled_quantity.value()) ==> r is Some
                && r->0.value() == self.quantity.value() - self.filled_quantity.value(),
    {
        if self.quantity.checked_sub(&self.filled_quantity).is_none() {
            return None;
        }
        Some(self.remaining_quantity())
    }

    /// `true` once the order reached a final state.
    pub fn is_terminal(&self) -> (r: bool)
        ensures
            r == status_is_terminal(self.status),
    {
        match self.status {
            OrderStatus::Filled | OrderStatus::Cancelled | OrderStatus::Rejected => true,
            _ => false,
        }
    }
}

/// Calls `uuid::Uuid::new_v4` and reads it as a 128-bit integer. The value
/// is random: nothing is stated of it.
#[verifier::external_body]
pub(crate) fn new_client_id() -> (r: u128) {
    uuid::Uuid::new_v4().as_u128()
}

} // verus!
