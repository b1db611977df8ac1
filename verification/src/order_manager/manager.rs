//! Order submission gatekeeping: the pre-flight checks every order goes
//! through before the rate limiter and the network. An order is rejected
//! when the book is not live or when a risk rule fails.

use vstd::prelude::*;
use crate::domain::decimal::Decimal;
use crate::domain::feed_state::FeedState;
use crate::domain::models::{Order, OrderStatus, OrderType, Side, new_client_id};
use crate::risk_manager::checks::{RiskError, risk_error_text};
use crate::risk_manager::manager::{RiskManager, below_cap, notional_computable, order_passes};
use crate::utils::time::now;

verus! {

/// Why an order was refused before reaching the exchange.
#[derive(Debug)]
pub enum SubmitRejection {
    /// The order book is not live (re-syncing or disconnected).
    BookNotLive,
    /// A risk rule failed.
    Risk(RiskError),
}

/// The message of a rejection.
pub open spec fn rejection_text(r: SubmitRejection) -> Seq<char> {
    match r {
        SubmitRejection::BookNotLive =>
            "Execution rejected: Order book is not Live (re-syncing or disconnected)"@,
        SubmitRejection::Risk(e) => risk_error_text(e),
    }
}

impl SubmitRejection {
    /// The rejection's message.
    pub fn to_string(&self) -> (r: String)
        ensures
            r@ == rejection_text(*self),
    {
        match self {
            SubmitRejection::BookNotLive => "Execution rejected: Order book is not Live (re-syncing or disconnected)".to_owned(),
            SubmitRejection::Risk(e) => e.to_string(),
        }
    }
}

/// The tentative order handed to the risk checks: a fresh client id,
/// nothing filled, pending, stamped with the current time.
pub fn tentative_order(
    symbol: &str,
    side: Side,
    order_type: OrderType,
    quantity: Decimal,
    price: Option<Decimal>,
) -> (r: Order)
    ensures
        r.exchange_id is None,
        r.symbol@ == symbol@,
        r.side == side,
        r.order_type == order_type,
        r.price == price,
        r.quantity == quantity,
        r.filled_quantity@ == (0int, 0nat),
        r.status == OrderStatus::Pending,
{
    Order {
        client_id: new_client_id(),
        exchange_id: None,
        symbol: symbol.to_owned(),
        side,
        order_type,
        price,
        quantity,
        filled_quantity: Decimal::zero(),
        status: OrderStatus::Pending,
        created_at: now(),
        updated_at: now(),
    }
}

/// The pre-flight checks: the book must be live, then the order must pass
/// the risk rules. On a live book with the open-order count below its cap
/// the notional of the order must be computable without overflow.
pub fn pre_flight(feed_state: &FeedState, risk: &RiskManager, order: &Order) -> (r: Result<
    (),
    SubmitRejection,
>)
    requires
        *feed_state is Live && below_cap(risk@) ==> notional_computable(*order),
    ensures
        !(*feed_state is Live) ==> r matches Err(SubmitRejection::BookNotLive),
        *feed_state is Live ==> (r is Ok <==> order_passes(risk@, *order)),
        *feed_state is Live && r is Err ==> r matches Err(SubmitRejection::Risk(_)),
{
    if !feed_state.is_live() {
        return Err(SubmitRejection::BookNotLive);
    }
    match risk.validate_order(order) {
        Ok(()) => Ok(()),
        Err(e) => Err(SubmitRejection::Risk(e)),
    }
}

/// The pre-flight checks where they can be computed: `None` when the book
/// is live, the open-order count below its cap and the order's notional
/// overflows, otherwise the result of [`pre_flight`].
pub fn try_pre_flight(feed_state: &FeedState, risk: &RiskManager, order: &Order) -> (r: Option<
    Result<(), SubmitRejection>,
>)
    ensures
        r is None <==> (*feed_state is Live && below_cap(risk@) && !notional_computable(*order)),
        r matches Some(x) ==> (!(*feed_state is Live) ==> x matches Err(
            SubmitRejection::BookNotLive,
        )),
        r matches Some(x) ==> (*feed_state is Live ==> (x is Ok <==> order_passes(risk@, *order))),
        r matches Some(x) ==> (*feed_state is Live && x is Err ==> x matches Err(
            SubmitRejection::Risk(_),
        )),
{
    if feed_state.is_live() && risk.try_validate_order(order).is_none() {
        return None;
    }
    Some(pre_flight(feed_state, risk, order))
}

} // verus!
