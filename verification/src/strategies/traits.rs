//! The strategy abstraction. A strategy is a pure construct: it reacts to
//! market events and returns orders, and never holds network bindings, so
//! that backtests and live trading run the same code.

use vstd::prelude::*;
use crate::domain::events::MarketEvent;
use crate::domain::models::Order;

verus! {

/// An error reported by a strategy.
#[derive(Clone, Debug)]
pub struct StrategyError {
    pub message: String,
}

/// The interface every strategy module implements.
pub trait Strategy {
    /// Human-readable strategy name used in logs and metrics.
    fn name(&self) -> &str;

    /// Called once before the event loop begins.
    fn on_start(&mut self) -> Result<(), StrategyError>;

    /// Reacts to an event with optional orders.
    fn on_event(&mut self, event: &MarketEvent) -> Option<Vec<Order>>;

    /// Called when stopping.
    fn on_stop(&mut self) -> Result<(), StrategyError>;
}

} // verus!
