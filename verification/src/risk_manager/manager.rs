//! Risk Manager: the pre-flight gate for every order a strategy wishes to
//! submit, and the keeper of the open-order count and of the inventory.

use vstd::prelude::*;

use crate::config::RiskConfig;
use crate::domain::models::{ExecutionReport, Order, Side};
use crate::domain::decimal::{decimal_checked_mul, units};
use crate::risk_manager::checks::{RiskError, check_notional, check_open_order_count};
use crate::domain::decimal::representable;
use crate::risk_manager::inventory::{
    PositionTracker, exact_after, exact_execution, executed_position, execution_computable,
    no_positions, position_values, position_view,
};

verus! {

/// The abstract state of a risk manager.
pub struct RiskModel {
    pub config: RiskConfig,
    pub open_order_count: u32,
    pub positions: Map<u32, (int, nat)>,
}

/// The state after an order was accepted: one more open order (wrapping).
pub open spec fn opened(m: RiskModel) -> RiskModel {
    RiskModel { open_order_count: m.open_order_count.wrapping_add(1), ..m }
}

/// The state after an order reached a terminal state: one open order less
/// (wrapping).
pub open spec fn closed(m: RiskModel) -> RiskModel {
    RiskModel { open_order_count: m.open_order_count.wrapping_sub(1), ..m }
}

/// Opening and then closing an order restores the risk state, and so does
/// closing and then opening one.
pub proof fn law_open_then_close_restores_count(m: RiskModel)
    ensures
        closed(opened(m)) == m,
        opened(closed(m)) == m,
{
}

/// Running risk state and limits.
pub struct RiskManager {
    config: RiskConfig,
    open_order_count: u32,
    position_tracker: PositionTracker,
}

/// The notional `price * quantity` of a priced order can be computed
/// without overflow (an order without a price has none to compute).
pub open spec fn notional_computable(order: Order) -> bool {
    order.price matches Some(p) ==> decimal_checked_mul(p@, order.quantity@) is Some
}

/// Whether the notional of `order` can be computed without overflow.
pub fn can_compute_notional(order: &Order) -> (r: bool)
    ensures
        r == notional_computable(*order),
{
    match order.price {
        Some(p) => p.checked_mul(&order.quantity).is_some(),
        None => true,
    }
}

/// The open-order count is below its cap: validation goes on to the
/// notional.
pub open spec fn below_cap(m: RiskModel) -> bool {
    (m.open_order_count as int) < m.config.max_open_orders
}

/// Validation does not look at the side of an order: a buy and a sell of
/// the same price and quantity pass or fail alike. Below the open-order
/// cap, a priced order passes exactly when its notional is within the
/// position cap, and an order without a price always passes.
pub proof fn law_validation_ignores_side(m: RiskModel, order: Order, side: Side)
    ensures
        order_passes(m, order) == order_passes(m, Order { side, ..order }),
        below_cap(m) && order.price is None ==> order_passes(m, order),
        below_cap(m) && order.price is Some ==> (order_passes(m, order) <==> units(
            decimal_checked_mul(order.price->0@, order.quantity@)->0,
        ) <= m.config.max_position_usd.value()),
        !below_cap(m) ==> !order_passes(m, order),
{
}

/// What validation of `order` yields under `m`: the open-order cap first,
/// then (for a priced order) the notional cap.
pub open spec fn order_passes(m: RiskModel, order: Order) -> bool {
    &&& (m.open_order_count as int) < m.config.max_open_orders
    &&& order.price matches Some(p) ==> {
        let n = crate::domain::decimal::decimal_checked_mul(p@, order.quantity@)->0;
        crate::domain::decimal::units(n) <= m.config.max_position_usd.value()
    }
}

impl View for RiskManager {
    type V = RiskModel;

    closed spec fn view(&self) -> RiskModel {
        RiskModel {
            config: self.config,
            open_order_count: self.open_order_count,
            positions: self.position_tracker@,
        }
    }
}

impl RiskManager {
    /// A manager with no open order and no position.
    pub fn new(config: RiskConfig) -> (r: RiskManager)
        ensures
            r@.config == config,
            r@.open_order_count == 0,
            r@.positions == no_positions(),
    {
        RiskManager { config, open_order_count: 0, position_tracker: PositionTracker::new() }
    }

    /// Validate a proposed order against the active risk rules: the open
    /// order count must be below its cap, and a priced order's notional must
    /// not exceed the position cap. The count is checked first; when it is
    /// below the cap the notional is computed, and must then be computable
    /// without overflow.
    pub fn validate_order(&self, order: &Order) -> (r: Result<(), RiskError>)
        requires
            below_cap(self@) ==> notional_computable(*order),
        ensures
            r is Ok <==> order_passes(self@, *order),
            (self@.open_order_count as int) >= self@.config.max_open_orders ==> (r matches Err(
                RiskError::OpenOrderCount { current: c, max: m },
            ) && c == self@.open_order_count && m == self@.config.max_open_orders),
            (self@.open_order_count as int) < self@.config.max_open_orders && r is Err ==> (
            r matches Err(RiskError::Notional { .. })),
            below_cap(self@) && order.price is None ==> r is Ok,
            below_cap(self@) && order.price is Some ==> (r is Ok <==> units(
                decimal_checked_mul(order.price->0@, order.quantity@)->0,
            ) <= self@.config.max_position_usd.value()),
    {
        check_open_order_count(self.open_order_count as usize, self.config.max_open_orders)?;
        if let Some(price) = order.price {
            check_notional(price, order.quantity, self.config.max_position_usd)?;
        }
        Ok(())
    }

    /// Validation where it can be computed: `None` when the count is below
    /// its cap and `price * quantity` overflows, otherwise the result of
    /// [`Self::validate_order`].
    pub fn try_validate_order(&self, order: &Order) -> (r: Option<Result<(), RiskError>>)
        ensures
            r is None <==> (below_cap(self@) && !notional_computable(*order)),
            r matches Some(x) ==> (x is Ok <==> order_passes(self@, *order)),
            r matches Some(x) ==> ((self@.open_order_count as int) >= self@.config.max_open_orders
                ==> (x matches Err(RiskError::OpenOrderCount { current: c, max: m }) && c
                == self@.open_order_count && m == self@.config.max_open_orders)),
            r matches Some(x) ==> ((self@.open_order_count as int) < self@.config.max_open_orders
                && x is Err ==> (x matches Err(RiskError::Notional { .. }))),
            r matches Some(x) ==> (below_cap(self@) && order.price is Some ==> (x is Ok <==> units(
                decimal_checked_mul(order.price->0@, order.quantity@)->0,
            ) <= self@.config.max_position_usd.value())),
            r matches Some(x) ==> (below_cap(self@) && order.price is None ==> x is Ok),
    {
        if (self.open_order_count as usize) < self.config.max_open_orders && !can_compute_notional(
            order,
        ) {
            return None;
        }
        Some(self.validate_order(order))
    }

    /// A new order was accepted by the exchange (the count wraps).
    pub fn on_order_opened(&mut self)
        ensures
            final(self)@ == opened(old(self)@),
    {
        self.open_order_count = self.open_order_count.wrapping_add(1);
    }

    /// An execution report: the inventory is updated.
    pub fn on_execution_report(&mut self, report: &ExecutionReport)
        requires
            execution_computable(old(self)@.positions, *report),
        ensures
            final(self)@.config == old(self)@.config,
            final(self)@.open_order_count == old(self)@.open_order_count,
            report.executed_quantity.value() == 0 ==> final(self)@.positions == old(self)@.positions,
            report.executed_quantity.value() != 0 ==> ({
                let r = executed_position(
                    position_view(old(self)@.positions, report.symbol_id),
                    report.side,
                    report.executed_quantity@,
                );
                r is Some && final(self)@.positions == old(self)@.positions.insert(report.symbol_id, r->0)
            }),
            representable(exact_execution(old(self)@.positions, *report)) ==> position_values(
                final(self)@.positions,
            ) == exact_after(position_values(old(self)@.positions), *report),
    {
        self.position_tracker.apply_execution(report);
    }

    /// An execution report where the new exposure can be computed;
    /// returns `false` (and changes nothing) when it would overflow.
    pub fn try_on_execution_report(&mut self, report: &ExecutionReport) -> (r: bool)
        ensures
            r <==> execution_computable(old(self)@.positions, *report),
            !r ==> final(self)@ == old(self)@,
            final(self)@.config == old(self)@.config,
            final(self)@.open_order_count == old(self)@.open_order_count,
            r && report.executed_quantity.value() == 0 ==> final(self)@.positions
                == old(self)@.positions,
            r && report.executed_quantity.value() != 0 ==> final(self)@.positions
                == old(self)@.positions.insert(
                report.symbol_id,
                executed_position(
                    position_view(old(self)@.positions, report.symbol_id),
                    report.side,
                    report.executed_quantity@,
                )->0,
            ),
    {
        self.position_tracker.try_apply_execution(report)
    }

    /// An order reached a terminal state (the count wraps).
    pub fn on_order_closed(&mut self)
        ensures
            final(self)@ == closed(old(self)@),
    {
        self.open_order_count = self.open_order_count.wrapping_sub(1);
    }

    /// The position tracker.
    pub fn position_tracker(&self) -> (r: &PositionTracker)
        ensures
            r@ == self@.positions,
    {
        &self.position_tracker
    }
}

} // verus!
