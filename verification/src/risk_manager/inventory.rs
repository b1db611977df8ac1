//! Position tracker: the net exposure (inventory) per symbol, built from
//! execution reports. Long exposure (buy) is positive, short (sell)
//! negative.

use dashmap::DashMap;
use std::collections::hash_map::RandomState;
use vstd::prelude::*;

use crate::domain::decimal::{
    Decimal, decimal_checked_add, decimal_checked_sub, representable, units,
};
use crate::domain::models::{ExecutionReport, Side, SymbolId};

verus! {

#[verifier::external_type_specification]
#[verifier::external_body]
#[verifier::reject_recursive_types(K)]
#[verifier::reject_recursive_types(V)]
#[verifier::reject_recursive_types(S)]
pub struct ExDashMap<K, V, S>(DashMap<K, V, S>);

/// The concurrent map holding positions.
pub type PositionMap = DashMap<u32, Decimal, RandomState>;

/// The entries of a position map: symbol → position (as mantissa, scale).
pub uninterp spec fn position_entries(m: PositionMap) -> Map<u32, (int, nat)>;

/// Calls `DashMap::new`: an empty map.
#[verifier::external_body]
fn positions_new() -> (r: PositionMap)
    ensures
        position_entries(r) == no_positions(),
{
    DashMap::new()
}

/// Calls `DashMap::get` and copies the value out: the entry of `k`, if any.
#[verifier::external_body]
fn positions_get(m: &PositionMap, k: u32) -> (r: Option<Decimal>)
    ensures
        position_entries(*m).contains_key(k) ==> r is Some && r->0@ == position_entries(*m)[k],
        !position_entries(*m).contains_key(k) ==> r is None,
{
    m.get(&k).map(|e| *e.value())
}

/// Calls `DashMap::insert`: the entry of `k` becomes `v`, the others stay.
#[verifier::external_body]
fn positions_insert(m: &mut PositionMap, k: u32, v: Decimal)
    ensures
        position_entries(*final(m)) == position_entries(*old(m)).insert(k, v@),
{
    m.insert(k, v);
}

/// No position at all.
pub open spec fn no_positions() -> Map<u32, (int, nat)> {
    Map::empty()
}

/// The position recorded for `sym` (zero when none is).
pub open spec fn position_units(p: Map<u32, (int, nat)>, sym: u32) -> int {
    if p.contains_key(sym) {
        units(p[sym])
    } else {
        0
    }
}

/// The position of `sym` as (mantissa, scale); `(0, 0)` when none is.
pub open spec fn position_view(p: Map<u32, (int, nat)>, sym: u32) -> (int, nat) {
    if p.contains_key(sym) {
        p[sym]
    } else {
        (0int, 0nat)
    }
}

/// The position after an execution of `qty` on side `side`.
pub open spec fn executed_position(pos: (int, nat), side: Side, qty: (int, nat)) -> Option<(int, nat)> {
    match side {
        Side::Buy => decimal_checked_add(pos, qty),
        Side::Sell => decimal_checked_sub(pos, qty),
    }
}

/// The exact exposure after an execution: the position plus (buy) or minus
/// (sell) the executed quantity.
pub open spec fn exact_execution(p: Map<u32, (int, nat)>, report: ExecutionReport) -> int {
    let q = report.executed_quantity.value();
    let pos = position_units(p, report.symbol_id);
    match report.side {
        Side::Buy => pos + q,
        Side::Sell => pos - q,
    }
}

/// The numeric value of every recorded position (units of 10^-28).
pub open spec fn position_values(p: Map<u32, (int, nat)>) -> Map<u32, int> {
    Map::new(|k: u32| p.contains_key(k), |k: u32| units(p[k]))
}

/// The value recorded for `sym` in a map of position values (zero when
/// none is).
pub open spec fn value_of(v: Map<u32, int>, sym: u32) -> int {
    if v.contains_key(sym) {
        v[sym]
    } else {
        0
    }
}

/// The signed quantity of an execution: positive for a buy, negative for
/// a sell.
pub open spec fn signed_quantity(report: ExecutionReport) -> int {
    match report.side {
        Side::Buy => report.executed_quantity.value(),
        Side::Sell => -report.executed_quantity.value(),
    }
}

/// Position values after an execution, in exact arithmetic: a zero
/// quantity changes nothing; any other moves the symbol's position by the
/// signed quantity.
pub open spec fn exact_after(v: Map<u32, int>, report: ExecutionReport) -> Map<u32, int> {
    if report.executed_quantity.value() == 0 {
        v
    } else {
        v.insert(report.symbol_id, value_of(v, report.symbol_id) + signed_quantity(report))
    }
}

/// Position values after a series of executions, in order.
pub open spec fn exact_after_all(v: Map<u32, int>, reports: Seq<ExecutionReport>) -> Map<u32, int>
    decreases reports.len(),
{
    if reports.len() == 0 {
        v
    } else {
        exact_after(exact_after_all(v, reports.drop_last()), reports.last())
    }
}

/// The net signed quantity executed on `sym` by a series of executions.
pub open spec fn net_executed(sym: u32, reports: Seq<ExecutionReport>) -> int
    decreases reports.len(),
{
    if reports.len() == 0 {
        0
    } else {
        net_executed(sym, reports.drop_last()) + if reports.last().symbol_id == sym {
            signed_quantity(reports.last())
        } else {
            0
        }
    }
}

/// A position is the net of its executions: after any series of
/// executions, a symbol's position is its starting position plus
/// everything bought minus everything sold on it.
pub proof fn law_position_is_net_of_executions(
    v: Map<u32, int>,
    sym: u32,
    reports: Seq<ExecutionReport>,
)
    ensures
        value_of(exact_after_all(v, reports), sym) == value_of(v, sym) + net_executed(sym, reports),
    decreases reports.len(),
{
    if reports.len() > 0 {
        law_position_is_net_of_executions(v, sym, reports.drop_last());
    }
}

/// The position after an execution can be computed without overflow (a
/// zero quantity computes nothing).
pub open spec fn execution_computable(p: Map<u32, (int, nat)>, report: ExecutionReport) -> bool {
    report.executed_quantity.value() != 0 ==> executed_position(
        position_view(p, report.symbol_id),
        report.side,
        report.executed_quantity@,
    ) is Some
}

/// Tracks net exposure per symbol.
pub struct PositionTracker {
    positions: PositionMap,
}

impl View for PositionTracker {
    type V = Map<u32, (int, nat)>;

    closed spec fn view(&self) -> Map<u32, (int, nat)> {
        position_entries(self.positions)
    }
}

impl PositionTracker {
    /// No position recorded.
    pub fn new() -> (r: PositionTracker)
        ensures
            r@ == no_positions(),
    {
        PositionTracker { positions: positions_new() }
    }

    /// Update the position of the report's symbol: a buy adds the executed
    /// quantity, a sell subtracts it; a zero quantity changes nothing. The
    /// new exposure must be computable without overflow.
    pub fn apply_execution(&mut self, report: &ExecutionReport)
        requires
            execution_computable(old(self)@, *report),
        ensures
            report.executed_quantity.value() == 0 ==> final(self)@ == old(self)@,
            report.executed_quantity.value() != 0 ==> ({
                let r = executed_position(
                    position_view(old(self)@, report.symbol_id),
                    report.side,
                    report.executed_quantity@,
                );
                r is Some && final(self)@ == old(self)@.insert(report.symbol_id, r->0)
            }),
            report.executed_quantity.value() != 0 && representable(
                exact_execution(old(self)@, *report),
            ) ==> position_units(final(self)@, report.symbol_id) == exact_execution(
                old(self)@,
                *report,
            ),
            representable(exact_execution(old(self)@, *report)) ==> position_values(final(self)@)
                == exact_after(position_values(old(self)@), *report),
    {
        if report.executed_quantity.is_zero() {
            return ;
        }
        let current = match positions_get(&self.positions, report.symbol_id) {
            Some(p) => p,
            None => Decimal::zero(),
        };
        assert(current@ == position_view(self@, report.symbol_id));
        let updated = match report.side {
            Side::Buy => current.checked_add(&report.executed_quantity),
            Side::Sell => current.checked_sub(&report.executed_quantity),
        };
        match updated {
            Some(u) => positions_insert(&mut self.positions, report.symbol_id, u),
            None => {
                assert(false);
            },
        }
    }

    /// Applies an execution where the new exposure can be computed;
    /// returns `false` (and changes nothing) when it would overflow.
    pub fn try_apply_execution(&mut self, report: &ExecutionReport) -> (r: bool)
        ensures
            r <==> execution_computable(old(self)@, *report),
            !r ==> final(self)@ == old(self)@,
            r && report.executed_quantity.value() == 0 ==> final(self)@ == old(self)@,
            r && report.executed_quantity.value() != 0 ==> final(self)@ == old(self)@.insert(
                report.symbol_id,
                executed_position(
                    position_view(old(self)@, report.symbol_id),
                    report.side,
                    report.executed_quantity@,
                )->0,
            ),
    {
        if !report.executed_quantity.is_zero() {
            let current = self.get_position(report.symbol_id);
            let updated = match report.side {
                Side::Buy => current.checked_add(&report.executed_quantity),
                Side::Sell => current.checked_sub(&report.executed_quantity),
            };
            if updated.is_none() {
                return false;
            }
        }
        self.apply_execution(report);
        true
    }

    /// Forcefully set a position (boot reconciliation).
    pub fn set_position(&mut self, symbol_id: SymbolId, qty: Decimal)
        ensures
            final(self)@ == old(self)@.insert(symbol_id, qty@),
    {
        positions_insert(&mut self.positions, symbol_id, qty);
    }

    /// The net position of a symbol (zero when none is recorded).
    pub fn get_position(&self, symbol_id: SymbolId) -> (r: Decimal)
        ensures
            r@ == position_view(self@, symbol_id),
    {
        match positions_get(&self.positions, symbol_id) {
            Some(p) => p,
            None => Decimal::zero(),
        }
    }
}

impl Default for PositionTracker {
    fn default() -> (r: PositionTracker)
        ensures
            r@ == no_positions(),
    {
        PositionTracker::new()
    }
}

} // verus!
