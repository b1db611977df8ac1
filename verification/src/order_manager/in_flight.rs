//! In-flight order tracking and the clean-up of orders whose confirmation
//! never arrived ("ghost" orders).

use dashmap::DashMap;
use std::collections::hash_map::RandomState;
use std::time::Instant;
use vstd::prelude::*;

use crate::domain::decimal::{Decimal, decimal_checked_sub, representable, units};
use crate::domain::models::{ExecutionReport, Order, OrderStatus};

verus! {

#[verifier::external_type_specification]
#[verifier::external_body]
pub struct ExInstant(Instant);

/// `Instant` is `Copy`: its `clone` returns the same instant.
pub assume_specification[ <Instant as Clone>::clone ](i: &Instant) -> (r: Instant)
    ensures
        r == *i,
;

/// How often the clean-up of ghost orders runs, in seconds.
pub const REAPER_INTERVAL_SECS: u64 = 10;

/// The age after which an order still in flight is a ghost, in
/// nanoseconds (30 seconds).
pub const GHOST_TIMEOUT_NANOS: u128 = 30_000_000_000;

/// A dispatched order and what has been seen of its execution.
#[derive(Clone, Debug)]
pub struct OrderState {
    pub order: Order,
    /// When the order was registered.
    pub timestamp: Instant,
    /// Cumulative filled quantity reported so far.
    pub cumulative_filled: Decimal,
}

/// The concurrent map holding in-flight orders by client id.
pub type InFlightMap = DashMap<u128, OrderState, RandomState>;

/// The entries of an in-flight map: client id → (order, cumulative filled
/// quantity as mantissa and scale).
pub uninterp spec fn in_flight_entries(m: InFlightMap) -> Map<u128, (Order, (int, nat))>;

/// An entry's view.
pub open spec fn state_view(s: OrderState) -> (Order, (int, nat)) {
    (s.order, s.cumulative_filled@)
}

/// Calls `DashMap::new`: an empty map.
#[verifier::external_body]
fn in_flight_new() -> (r: InFlightMap)
    ensures
        in_flight_entries(r) == no_entries(),
{
    DashMap::new()
}

/// Calls `DashMap::get` and clones the entry out.
#[verifier::external_body]
fn in_flight_get(m: &InFlightMap, k: u128) -> (r: Option<OrderState>)
    ensures
        in_flight_entries(*m).contains_key(k) ==> r is Some && state_view(r->0)
            == in_flight_entries(*m)[k],
        !in_flight_entries(*m).contains_key(k) ==> r is None,
{
    m.get(&k).map(|e| e.value().clone())
}

/// Calls `DashMap::insert`: the entry of `k` becomes `v`, the others stay.
#[verifier::external_body]
fn in_flight_insert(m: &mut InFlightMap, k: u128, v: OrderState)
    ensures
        in_flight_entries(*final(m)) == in_flight_entries(*old(m)).insert(k, state_view(v)),
{
    m.insert(k, v);
}

/// Calls `DashMap::remove`: the entry of `k` is gone, the others stay.
#[verifier::external_body]
fn in_flight_remove(m: &mut InFlightMap, k: u128)
    ensures
        in_flight_entries(*final(m)) == in_flight_entries(*old(m)).remove(k),
{
    m.remove(&k);
}

/// Walks the map (`DashMap::iter`) and collects its keys, in the order the
/// walk gives them (which is not stated): each key exactly once.
#[verifier::external_body]
fn in_flight_keys(m: &InFlightMap) -> (r: Vec<u128>)
    ensures
        r@.to_set() == in_flight_entries(*m).dom(),
        r@.no_duplicates(),
{
    m.iter().map(|e| *e.key()).collect()
}

/// Calls `Instant::now`. The reading depends on the clock.
#[verifier::external_body]
fn instant_now() -> (r: Instant) {
    Instant::now()
}

/// Calls `Instant::elapsed` and reads it in nanoseconds. The reading
/// depends on the clock.
#[verifier::external_body]
fn elapsed_nanos(t: &Instant) -> (r: u128) {
    t.elapsed().as_nanos()
}

/// No entry at all.
pub open spec fn no_entries() -> Map<u128, (Order, (int, nat))> {
    Map::empty()
}

/// Filled and cancelled orders leave the tracker on their report.
pub open spec fn closes_order(s: OrderStatus) -> bool {
    s is Filled || s is Cancelled
}

/// The entries after a report: an order not in flight is left alone; a
/// filled or cancelled order leaves; any other takes the report's
/// cumulative quantity.
pub open spec fn after_report(m: Map<u128, (Order, (int, nat))>, report: ExecutionReport) -> Map<
    u128,
    (Order, (int, nat)),
> {
    if !m.contains_key(report.client_id) {
        m
    } else if closes_order(report.order_status) {
        m.remove(report.client_id)
    } else {
        m.insert(report.client_id, (m[report.client_id].0, report.executed_quantity@))
    }
}

/// Only a fill or a cancellation ends an order's flight: a report of any
/// other status (pending, open, partially filled, rejected) keeps the
/// order in the tracker with the report's cumulative quantity, a filled or
/// cancelled report removes it, and no other order is touched.
pub proof fn law_only_fills_and_cancels_close(
    m: Map<u128, (Order, (int, nat))>,
    report: ExecutionReport,
    other: u128,
)
    requires
        m.contains_key(report.client_id),
    ensures
        !(report.order_status is Filled) && !(report.order_status is Cancelled) ==> after_report(
            m,
            report,
        ).contains_key(report.client_id) && after_report(m, report)[report.client_id] == (
            m[report.client_id].0,
            report.executed_quantity@,
        ),
        report.order_status is Filled || report.order_status is Cancelled ==> !after_report(
            m,
            report,
        ).contains_key(report.client_id),
        other != report.client_id ==> (after_report(m, report).contains_key(other)
            == m.contains_key(other)) && (m.contains_key(other) ==> after_report(m, report)[other]
            == m[other]),
{
}

/// The fill delta of a report for an order in flight, in units of 10^-28:
/// its cumulative quantity minus the one seen before.
pub open spec fn report_delta(m: Map<u128, (Order, (int, nat))>, report: ExecutionReport) -> int {
    report.executed_quantity.value() - units(m[report.client_id].1)
}

/// The entries after a series of reports, in order.
pub open spec fn after_reports(m: Map<u128, (Order, (int, nat))>, reports: Seq<ExecutionReport>) -> Map<
    u128,
    (Order, (int, nat)),
>
    decreases reports.len(),
{
    if reports.len() == 0 {
        m
    } else {
        after_report(after_reports(m, reports.drop_last()), reports.last())
    }
}

/// The sum of the fill deltas of a series of reports, each taken against
/// the entries the reports before it left.
pub open spec fn total_delta(m: Map<u128, (Order, (int, nat))>, reports: Seq<ExecutionReport>) -> int
    decreases reports.len(),
{
    if reports.len() == 0 {
        0
    } else {
        total_delta(m, reports.drop_last()) + report_delta(
            after_reports(m, reports.drop_last()),
            reports.last(),
        )
    }
}

/// Reporting cumulative quantities never counts a fill twice: for
/// successive reports on one order in flight (none but the last filling
/// or cancelling it), the fill deltas add up to the last cumulative
/// quantity minus the one the tracker held at the start.
pub proof fn law_fill_deltas_sum_to_cumulative(
    m: Map<u128, (Order, (int, nat))>,
    id: u128,
    reports: Seq<ExecutionReport>,
)
    requires
        m.contains_key(id),
        reports.len() > 0,
        forall|i: int| 0 <= i < reports.len() ==> (#[trigger] reports[i]).client_id == id,
        forall|i: int| 0 <= i < reports.len() - 1 ==> !closes_order((#[trigger] reports[i]).order_status),
    ensures
        total_delta(m, reports) == reports.last().executed_quantity.value() - units(m[id].1),
    decreases reports.len(),
{
    let prefix = reports.drop_last();
    let last = reports.last();
    assert(last == reports[reports.len() - 1]);
    assert(last.client_id == id);
    assert forall|i: int| 0 <= i < prefix.len() implies (#[trigger] prefix[i]).client_id == id
        && !closes_order(prefix[i].order_status) by {
        assert(prefix[i] == reports[i]);
    }
    lemma_open_prefix(m, id, prefix);
    if prefix.len() > 0 {
        law_fill_deltas_sum_to_cumulative(m, id, prefix);
        assert(prefix.last() == prefix[prefix.len() - 1]);
    }
    assert(total_delta(m, reports) == total_delta(m, prefix) + report_delta(
        after_reports(m, prefix),
        last,
    ));
}

/// Along reports on one order that neither fill nor cancel it, the order
/// stays in flight holding the last report's cumulative quantity.
proof fn lemma_open_prefix(m: Map<u128, (Order, (int, nat))>, id: u128, reports: Seq<ExecutionReport>)
    requires
        m.contains_key(id),
        forall|i: int| 0 <= i < reports.len() ==> (#[trigger] reports[i]).client_id == id,
        forall|i: int| 0 <= i < reports.len() ==> !closes_order((#[trigger] reports[i]).order_status),
    ensures
        after_reports(m, reports).contains_key(id),
        reports.len() > 0 ==> after_reports(m, reports)[id].1 == reports.last().executed_quantity@,
    decreases reports.len(),
{
    if reports.len() > 0 {
        let prefix = reports.drop_last();
        assert forall|i: int| 0 <= i < prefix.len() implies (#[trigger] prefix[i]).client_id == id
            && !closes_order(prefix[i].order_status) by {
            assert(prefix[i] == reports[i]);
        }
        lemma_open_prefix(m, id, prefix);
        assert(reports.last() == reports[reports.len() - 1]);
    }
}

/// The order ids of a series of (id, age in nanoseconds) readings.
pub open spec fn age_ids(ages: Seq<(u128, u128)>) -> Seq<u128> {
    ages.map_values(|e: (u128, u128)| e.0)
}

/// The ids of the readings older than `timeout_nanos`, in reading order.
pub open spec fn expired_of(ages: Seq<(u128, u128)>, timeout_nanos: u128) -> Seq<u128>
    decreases ages.len(),
{
    if ages.len() == 0 {
        seq![]
    } else {
        let rest = expired_of(ages.drop_last(), timeout_nanos);
        if ages.last().1 > timeout_nanos {
            rest.push(ages.last().0)
        } else {
            rest
        }
    }
}

/// Every selected id comes from a reading older than the timeout, and
/// distinct ids in the readings give distinct selected ids.
proof fn lemma_expired_of(ages: Seq<(u128, u128)>, timeout_nanos: u128)
    ensures
        forall|j: int|
            #![trigger expired_of(ages, timeout_nanos)[j]]
            0 <= j < expired_of(ages, timeout_nanos).len() ==> exists|i: int|
                0 <= i < ages.len() && (#[trigger] ages[i]).0 == expired_of(ages, timeout_nanos)[j]
                    && ages[i].1 > timeout_nanos,
        age_ids(ages).no_duplicates() ==> expired_of(ages, timeout_nanos).no_duplicates(),
    decreases ages.len(),
{
    if ages.len() > 0 {
        let p = ages.drop_last();
        lemma_expired_of(p, timeout_nanos);
        let rest = expired_of(p, timeout_nanos);
        let e = expired_of(ages, timeout_nanos);
        assert forall|j: int| #![trigger e[j]] 0 <= j < e.len() implies exists|i: int|
            0 <= i < ages.len() && (#[trigger] ages[i]).0 == e[j] && ages[i].1 > timeout_nanos by {
            if j < rest.len() {
                let i = choose|i: int|
                    0 <= i < p.len() && (#[trigger] p[i]).0 == rest[j] && p[i].1 > timeout_nanos;
                assert(ages[i] == p[i]);
            } else {
                assert(ages[ages.len() - 1] == ages.last());
            }
        }
        if age_ids(ages).no_duplicates() {
            assert(age_ids(p) =~= age_ids(ages).drop_last());
            assert(age_ids(p).no_duplicates()) by {
                assert forall|a: int, b: int| 0 <= a < b < age_ids(p).len() implies age_ids(p)[a]
                    != age_ids(p)[b] by {
                    assert(age_ids(p)[a] == age_ids(ages)[a]);
                    assert(age_ids(p)[b] == age_ids(ages)[b]);
                }
            }
            if ages.last().1 > timeout_nanos {
                assert forall|j: int| 0 <= j < rest.len() implies rest[j] != ages.last().0 by {
                    let i = choose|i: int|
                        0 <= i < p.len() && (#[trigger] p[i]).0 == rest[j] && p[i].1
                            > timeout_nanos;
                    assert(age_ids(ages)[i] == p[i].0);
                    assert(age_ids(ages)[ages.len() - 1] == ages.last().0);
                }
                assert forall|a: int, b: int| 0 <= a < b < e.len() implies e[a] != e[b] by {
                    if b == rest.len() {
                        assert(e[a] == rest[a]);
                    }
                }
            }
        }
    }
}

/// The ids of the (id, age in nanoseconds) readings older than
/// `timeout_nanos`, in reading order.
pub fn expired_ids(ages: &Vec<(u128, u128)>, timeout_nanos: u128) -> (r: Vec<u128>)
    ensures
        r@ == expired_of(ages@, timeout_nanos),
{
    let mut r: Vec<u128> = Vec::new();
    let mut i: usize = 0;
    proof {
        assert(ages@.subrange(0, 0) =~= Seq::<(u128, u128)>::empty());
    }
    while i < ages.len()
        invariant
            i <= ages@.len(),
            r@ == expired_of(ages@.subrange(0, i as int), timeout_nanos),
        decreases ages@.len() - i,
    {
        let (id, age) = ages[i];
        proof {
            let s = ages@.subrange(0, i as int + 1);
            assert(s.drop_last() =~= ages@.subrange(0, i as int));
            assert(s.last() == ages@[i as int]);
        }
        if age > timeout_nanos {
            r.push(id);
        }
        i = i + 1;
    }
    proof {
        assert(ages@.subrange(0, ages@.len() as int) =~= ages@);
    }
    r
}

/// Tracks orders sent but not yet fully confirmed or filled.
pub struct InFlightTracker {
    pending_orders: InFlightMap,
}

impl View for InFlightTracker {
    type V = Map<u128, (Order, (int, nat))>;

    closed spec fn view(&self) -> Map<u128, (Order, (int, nat))> {
        in_flight_entries(self.pending_orders)
    }
}

impl InFlightTracker {
    /// No order in flight.
    pub fn new() -> (r: InFlightTracker)
        ensures
            r@ == no_entries(),
    {
        InFlightTracker { pending_orders: in_flight_new() }
    }

    /// Register an order dispatched to the exchange, with nothing filled yet.
    pub fn register_order(&mut self, order: Order)
        ensures
            final(self)@ == old(self)@.insert(order.client_id, (order, (0int, 0nat))),
    {
        let id = order.client_id;
        let state = OrderState { order, timestamp: instant_now(), cumulative_filled: Decimal::zero() };
        in_flight_insert(&mut self.pending_orders, id, state);
    }

    /// The fill delta of an execution report: the report's cumulative
    /// quantity minus the cumulative quantity seen before, which the report's
    /// quantity then replaces (so repeated cumulative reports are never
    /// summed twice). A filled or cancelled order leaves the tracker.
    /// `None` for an order not in flight. The delta must be computable
    /// without overflow.
    pub fn process_execution(&mut self, report: &ExecutionReport) -> (r: Option<Decimal>)
        requires
            old(self)@.contains_key(report.client_id) ==> decimal_checked_sub(
                report.executed_quantity@,
                old(self)@[report.client_id].1,
            ) is Some,
        ensures
            final(self)@ == after_report(old(self)@, *report),
            r is None <==> !old(self)@.contains_key(report.client_id),
            old(self)@.contains_key(report.client_id) && !(report.order_status is Filled) && !(
            report.order_status is Cancelled) ==> final(self)@.contains_key(report.client_id)
                && final(self)@[report.client_id].1 == report.executed_quantity@,
            report.order_status is Filled || report.order_status is Cancelled
                ==> !final(self)@.contains_key(report.client_id),
            old(self)@.contains_key(report.client_id) ==> ({
                let e = old(self)@[report.client_id];
                &&& Some(r->0@) == decimal_checked_sub(report.executed_quantity@, e.1)
                &&& representable(report_delta(old(self)@, *report)) ==> r->0.value()
                    == report_delta(old(self)@, *report)
            }),
    {
        let state = match in_flight_get(&self.pending_orders, report.client_id) {
            Some(s) => s,
            None => return None,
        };
        let delta = match report.executed_quantity.checked_sub(&state.cumulative_filled) {
            Some(d) => d,
            None => {
                assert(false);
                return None;
            },
        };
        match report.order_status {
            OrderStatus::Filled | OrderStatus::Cancelled => {
                in_flight_remove(&mut self.pending_orders, report.client_id);
            },
            _ => {
                let updated = OrderState {
                    order: state.order,
                    timestamp: state.timestamp,
                    cumulative_filled: report.executed_quantity,
                };
                in_flight_insert(&mut self.pending_orders, report.client_id, updated);
            },
        }
        Some(delta)
    }

    /// Processing where the fill delta can be computed: `None` (and the
    /// tracker unchanged) when the order is in flight and the delta
    /// overflows, otherwise the result of [`Self::process_execution`].
    pub fn try_process_execution(&mut self, report: &ExecutionReport) -> (r: Option<Option<Decimal>>)
        ensures
            r is None <==> (old(self)@.contains_key(report.client_id) && decimal_checked_sub(
                report.executed_quantity@,
                old(self)@[report.client_id].1,
            ) is None),
            r is None ==> final(self)@ == old(self)@,
            r is Some ==> final(self)@ == after_report(old(self)@, *report),
            r matches Some(d) ==> (d is None <==> !old(self)@.contains_key(report.client_id)),
            r matches Some(d) ==> (old(self)@.contains_key(report.client_id) ==> Some(d->0@)
                == decimal_checked_sub(
                report.executed_quantity@,
                old(self)@[report.client_id].1,
            )),
    {
        if let Some(state) = in_flight_get(&self.pending_orders, report.client_id) {
            if report.executed_quantity.checked_sub(&state.cumulative_filled).is_none() {
                return None;
            }
        }
        Some(self.process_execution(report))
    }

    /// One pass of the clean-up: the age of every order in flight is read
    /// (how long ago it was registered, in nanoseconds); the orders older
    /// than `timeout_nanos` are dropped from the tracker and their ids
    /// returned, each once, as [`expired_ids`] selects them. The ages depend
    /// on the clock: whatever they read, the result is that selection.
    pub fn reap_expired(&mut self, timeout_nanos: u128) -> (r: Vec<u128>)
        ensures
            r@.no_duplicates(),
            forall|id: u128| r@.contains(id) ==> old(self)@.contains_key(id),
            final(self)@ == old(self)@.remove_keys(r@.to_set()),
            exists|ages: Seq<(u128, u128)>|
                #![trigger expired_of(ages, timeout_nanos)]
                age_ids(ages).no_duplicates() && age_ids(ages).to_set() == old(self)@.dom() && r@
                    == expired_of(ages, timeout_nanos),
    {
        let keys = in_flight_keys(&self.pending_orders);
        let ghost start = self@;
        let mut ages: Vec<(u128, u128)> = Vec::new();
        let mut i: usize = 0;
        while i < keys.len()
            invariant
                i <= keys@.len(),
                self@ == start,
                ages@.len() == i,
                forall|j: int| 0 <= j < i ==> (#[trigger] ages@[j]).0 == keys@[j],
            decreases keys@.len() - i,
        {
            let id = keys[i];
            let age = match in_flight_get(&self.pending_orders, id) {
                Some(state) => elapsed_nanos(&state.timestamp),
                None => 0,
            };
            ages.push((id, age));
            i = i + 1;
        }
        proof {
            assert(age_ids(ages@) =~= keys@);
        }
        let ghosts = expired_ids(&ages, timeout_nanos);
        proof {
            lemma_expired_of(ages@, timeout_nanos);
            assert forall|id: u128| ghosts@.contains(id) implies start.contains_key(id) by {
                let j = choose|j: int| 0 <= j < ghosts@.len() && ghosts@[j] == id;
                let i = choose|i: int|
                    0 <= i < ages@.len() && (#[trigger] ages@[i]).0 == ghosts@[j]
                        && ages@[i].1 > timeout_nanos;
                assert(age_ids(ages@)[i] == id);
                assert(age_ids(ages@).contains(id));
                assert(keys@.to_set().contains(id));
            }
        }
        let mut k: usize = 0;
        while k < ghosts.len()
            invariant
                k <= ghosts@.len(),
                self@ == start.remove_keys(ghosts@.subrange(0, k as int).to_set()),
            decreases ghosts@.len() - k,
        {
            let id = ghosts[k];
            in_flight_remove(&mut self.pending_orders, id);
            proof {
                let a = ghosts@.subrange(0, k as int);
                let b = ghosts@.subrange(0, k as int + 1);
                assert(b =~= a.push(id));
                a.lemma_push_to_set_commute(id);
                assert(start.remove_keys(b.to_set()) =~= start.remove_keys(a.to_set()).remove(id));
            }
            k = k + 1;
        }
        proof {
            assert(ghosts@.subrange(0, ghosts@.len() as int) =~= ghosts@);
            assert(age_ids(ages@).no_duplicates() && age_ids(ages@).to_set() == start.dom()
                && ghosts@ == expired_of(ages@, timeout_nanos));
        }
        ghosts
    }
}

impl Default for InFlightTracker {
    fn default() -> (r: InFlightTracker)
        ensures
            r@ == no_entries(),
    {
        InFlightTracker::new()
    }
}

} // verus!
