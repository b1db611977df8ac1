//! Instrument metadata for exact price and quantity rounding: a tick size
//! for prices and a lot size for quantities.

use std::collections::HashMap;
use vstd::prelude::*;
use vstd::std_specs::hash::group_hash_axioms;

use crate::domain::decimal::{
    Decimal, MAX_MANTISSA, decimal_checked_div, decimal_checked_mul, opt_view, pow10, representable,
    trunc_units, units,
};
use crate::domain::models::{Order, SymbolId};

verus! {

/// Fundamental market constraints of a traded asset.
#[derive(Clone, Debug)]
pub struct Instrument {
    pub symbol_id: SymbolId,
    pub symbol: String,
    pub tick_size: Decimal,
    pub lot_size: Decimal,
    pub min_notional: Decimal,
}

/// `v` rounded down to a multiple of `step` as computed with decimal
/// arithmetic, `(v / step).trunc() * step`; `v` itself when `step` is
/// zero; `None` where a step of the computation overflows.
pub open spec fn round_down_to(v: (int, nat), step: (int, nat)) -> Option<(int, nat)> {
    if units(step) == 0 {
        Some(v)
    } else {
        match decimal_checked_div(v, step) {
            None => None,
            Some(q) => decimal_checked_mul((trunc_units(units(q)) / pow10(28), 0nat), step),
        }
    }
}

/// The exact-arithmetic case of rounding `v` down to a multiple of a
/// positive `step`: `v / step` is representable exactly, and so is the
/// product of its integral part with `step`.
pub open spec fn exact_rounding(v: (int, nat), step: (int, nat)) -> bool {
    let q = units(v) * pow10(28) / units(step);
    &&& units(step) > 0
    &&& (units(v) * pow10(28)) % units(step) == 0
    &&& representable(q)
    &&& step.1 <= 28
    &&& -MAX_MANTISSA <= (trunc_units(q) / pow10(28)) * step.0 <= MAX_MANTISSA
}

/// The exact result of rounding `v` down to a multiple of `step`, in
/// units of 10^-28: the integral part of `v / step`, times `step`.
pub open spec fn exact_round_value(v: (int, nat), step: (int, nat)) -> int {
    (trunc_units(units(v) * pow10(28) / units(step)) / pow10(28)) * units(step)
}

/// A multiple of 10^28 truncates to itself.
proof fn lemma_trunc_of_multiple(n: int)
    ensures
        trunc_units(n * pow10(28)) == n * pow10(28),
{
    let p = pow10(28);
    crate::domain::decimal::lemma_pow10_positive(28);
    if n >= 0 {
        assert(n * p >= 0) by (nonlinear_arith)
            requires
                n >= 0,
                p > 0,
        ;
        vstd::arithmetic::div_mod::lemma_div_multiples_vanish(n, p);
        vstd::arithmetic::mul::lemma_mul_is_commutative(n, p);
    } else {
        assert(n * p < 0 && -(n * p) == (-n) * p) by (nonlinear_arith)
            requires
                n < 0,
                p > 0,
        ;
        vstd::arithmetic::div_mod::lemma_div_multiples_vanish(-n, p);
        vstd::arithmetic::mul::lemma_mul_is_commutative(-n, p);
    }
}

/// Rounding down is idempotent: where rounding `v` down to a multiple of
/// `step` is exact, rounding the result `r` again is exact too and gives
/// `r` back.
pub proof fn law_round_down_idempotent(v: (int, nat), step: (int, nat), r: (int, nat))
    requires
        exact_rounding(v, step),
        units(r) == exact_round_value(v, step),
    ensures
        exact_rounding(r, step),
        exact_round_value(r, step) == units(r),
{
    let p = pow10(28);
    crate::domain::decimal::lemma_pow10_positive(28);
    let sv = units(step);
    let q = units(v) * p / sv;
    let t = trunc_units(q);
    // t is a multiple of p: t == n * p.
    let n = t / p;
    if q >= 0 {
        assert(t == (q / p) * p);
        vstd::arithmetic::div_mod::lemma_div_multiples_vanish(q / p, p);
        vstd::arithmetic::mul::lemma_mul_is_commutative(q / p, p);
        assert(n == q / p);
    } else {
        assert(t == -(((-q) / p) * p));
        assert(-(((-q) / p) * p) == (-((-q) / p)) * p) by (nonlinear_arith);
        vstd::arithmetic::div_mod::lemma_div_multiples_vanish(-((-q) / p), p);
        vstd::arithmetic::mul::lemma_mul_is_commutative(-((-q) / p), p);
        assert(n == -((-q) / p));
    }
    assert(t == n * p);
    assert(units(r) == n * sv);
    // step's mantissa is positive, so |n| <= |n * step.0| <= MAX.
    assert(step.0 > 0) by {
        crate::domain::decimal::lemma_pow10_positive((28 - step.1) as nat);
        if step.0 <= 0 {
            assert(step.0 * pow10((28 - step.1) as nat) <= 0) by (nonlinear_arith)
                requires
                    step.0 <= 0,
                    pow10((28 - step.1) as nat) > 0,
            ;
        }
    }
    assert(-MAX_MANTISSA <= n <= MAX_MANTISSA) by (nonlinear_arith)
        requires
            -MAX_MANTISSA <= n * step.0 <= MAX_MANTISSA,
            step.0 > 0,
    ;
    // The second quotient is n * p exactly.
    assert(units(r) * p == (n * p) * sv) by (nonlinear_arith)
        requires
            units(r) == n * sv,
    ;
    vstd::arithmetic::div_mod::lemma_mod_multiples_basic(n * p, sv);
    vstd::arithmetic::div_mod::lemma_div_multiples_vanish(n * p, sv);
    vstd::arithmetic::mul::lemma_mul_is_commutative(n * p, sv);
    assert(units(r) * p / sv == n * p);
    lemma_trunc_of_multiple(n);
    vstd::arithmetic::div_mod::lemma_div_multiples_vanish(n, p);
    vstd::arithmetic::mul::lemma_mul_is_commutative(n, p);
    assert(trunc_units(n * p) / p == n);
    // n * p is representable at scale 0.
    let s0: nat = 0;
    assert(pow10((28 - s0) as nat) == p);
    vstd::arithmetic::div_mod::lemma_mod_multiples_basic(n, p);
    assert((n * p) % pow10((28 - s0) as nat) == 0 && -MAX_MANTISSA <= (n * p) / pow10(
        (28 - s0) as nat,
    ) <= MAX_MANTISSA);
    assert(representable(n * p));
}

/// `value` rounded down to a multiple of `step`, `None` on overflow. When
/// the arithmetic is exact and `value` is not negative, the result is the
/// largest multiple of `step` not above `value`.
pub fn round_down_checked(value: &Decimal, step: &Decimal) -> (r: Option<Decimal>)
    ensures
        opt_view(r) == round_down_to(value@, step@),
        exact_rounding(value@, step@) ==> r is Some && r->0.value() == (trunc_units(
            units(value@) * pow10(28) / units(step@),
        ) / pow10(28)) * step.value(),
        exact_rounding(value@, step@) && value.value() >= 0 ==> r is Some && 0 <= value.value()
            - r->0.value() < step.value() && (r->0.value() % step.value()) == 0,
{
    if step.is_zero() {
        return Some(*value);
    }
    let q = match value.checked_div(step) {
        Some(q) => q,
        None => return None,
    };
    let t = q.trunc();
    proof {
        crate::domain::decimal::lemma_pow10_positive(28);
        vstd::arithmetic::div_mod::lemma_div_multiples_vanish(t@.0, pow10(28));
        vstd::arithmetic::mul::lemma_mul_is_commutative(t@.0, pow10(28));
        assert(t.value() == t@.0 * pow10(28));
        assert(trunc_units(units(q@)) == t@.0 * pow10(28));
    }
    assert(t@ == (trunc_units(units(q@)) / pow10(28), 0nat));
    let r = t.checked_mul(step);
    proof {
        if exact_rounding(value@, step@) {
            let p = pow10(28);
            let qv = units(value@) * p / units(step@);
            assert(q.value() == qv);
            let n = trunc_units(qv) / p;
            assert(t@.0 == n);
            assert(r is Some);
            let rv = r->0.value();
            assert(rv == n * step@.0 * pow10((28 - step@.1) as nat));
            vstd::arithmetic::mul::lemma_mul_is_associative(n, step@.0, pow10((28 - step@.1) as nat));
            assert(rv == n * step.value());
            if value.value() >= 0 {
                lemma_floor_multiple(value.value(), step.value(), p);
                crate::domain::decimal::lemma_pow10_positive(28);
                assert(qv >= 0) by {
                    vstd::arithmetic::mul::lemma_mul_nonnegative(value.value(), p);
                    vstd::arithmetic::div_mod::lemma_div_pos_is_pos(value.value() * p, step.value());
                }
                assert(trunc_units(qv) == (qv / p) * p);
                vstd::arithmetic::div_mod::lemma_div_multiples_vanish(qv / p, p);
                vstd::arithmetic::mul::lemma_mul_is_commutative(qv / p, p);
                assert(n == qv / p);
            }
        }
    }
    r
}

/// With `q = v * p / s` exact (`v >= 0`, `s, p > 0`) and `n` the whole part
/// of `q / p`, `n * s` is the largest multiple of `s` not above `v`.
proof fn lemma_floor_multiple(v: int, s: int, p: int)
    requires
        v >= 0,
        s > 0,
        p > 0,
        (v * p) % s == 0,
    ensures
        ({
            let q = v * p / s;
            let n = trunc_units_by(q, p);
            &&& 0 <= v - n * s < s
            &&& (n * s) % s == 0
        }),
{
    let q = v * p / s;
    vstd::arithmetic::div_mod::lemma_fundamental_div_mod(v * p, s);
    assert(v * p == s * q);
    assert(q >= 0) by {
        vstd::arithmetic::div_mod::lemma_div_pos_is_pos(v * p, s);
        vstd::arithmetic::mul::lemma_mul_nonnegative(v, p);
    }
    let n = q / p;
    let rem = q % p;
    vstd::arithmetic::div_mod::lemma_fundamental_div_mod(q, p);
    assert(q == p * n + rem);
    assert(0 <= rem < p) by {
        vstd::arithmetic::div_mod::lemma_mod_bound(q, p);
    }
    assert(trunc_units_by(q, p) == n);
    // v * p = s * (p * n + rem) = p * (n * s) + s * rem
    assert(v * p == p * (n * s) + s * rem) by (nonlinear_arith)
        requires
            v * p == s * q,
            q == p * n + rem,
    ;
    assert(0 <= s * rem < s * p) by (nonlinear_arith)
        requires
            0 <= rem < p,
            s > 0,
    ;
    assert(0 <= v - n * s < s) by (nonlinear_arith)
        requires
            v * p == p * (n * s) + s * rem,
            0 <= s * rem < s * p,
            p > 0,
    ;
    vstd::arithmetic::div_mod::lemma_mod_multiples_basic(n, s);
}

/// The whole part of `q / p` for `q >= 0`.
pub open spec fn trunc_units_by(q: int, p: int) -> int {
    q / p
}

impl Instrument {
    /// Rounds a price down to a multiple of `tick_size`:
    /// `(price / tick).trunc() * tick`; a zero tick leaves it unchanged.
    /// The computation must not overflow.
    pub fn round_price_down(&self, price: Decimal) -> (r: Decimal)
        requires
            round_down_to(price@, self.tick_size@) is Some,
        ensures
            Some(r@) == round_down_to(price@, self.tick_size@),
            exact_rounding(price@, self.tick_size@) && price.value() >= 0 ==> 0 <= price.value()
                - r.value() < self.tick_size.value() && r.value() % self.tick_size.value() == 0,
            exact_rounding(price@, self.tick_size@) ==> r.value() == exact_round_value(
                price@,
                self.tick_size@,
            ) && exact_rounding(r@, self.tick_size@) && exact_round_value(r@, self.tick_size@)
                == r.value(),
    {
        let r = match round_down_checked(&price, &self.tick_size) {
            Some(d) => d,
            None => {
                assert(false);
                price
            },
        };
        proof {
            if exact_rounding(price@, self.tick_size@) {
                law_round_down_idempotent(price@, self.tick_size@, r@);
            }
        }
        r
    }

    /// Rounds a quantity down to a multiple of `lot_size`; a zero lot size
    /// leaves it unchanged. The computation must not overflow.
    pub fn round_qty_down(&self, qty: Decimal) -> (r: Decimal)
        requires
            round_down_to(qty@, self.lot_size@) is Some,
        ensures
            Some(r@) == round_down_to(qty@, self.lot_size@),
            exact_rounding(qty@, self.lot_size@) && qty.value() >= 0 ==> 0 <= qty.value()
                - r.value() < self.lot_size.value() && r.value() % self.lot_size.value() == 0,
            exact_rounding(qty@, self.lot_size@) ==> r.value() == exact_round_value(
                qty@,
                self.lot_size@,
            ) && exact_rounding(r@, self.lot_size@) && exact_round_value(r@, self.lot_size@)
                == r.value(),
    {
        let r = match round_down_checked(&qty, &self.lot_size) {
            Some(d) => d,
            None => {
                assert(false);
                qty
            },
        };
        proof {
            if exact_rounding(qty@, self.lot_size@) {
                law_round_down_idempotent(qty@, self.lot_size@, r@);
            }
        }
        r
    }

    /// Rounds an order's quantity to the lot size and its price, if any, to
    /// the tick size. Nothing else changes.
    pub fn format_order(&self, order: &mut Order)
        requires
            round_down_to(old(order).quantity@, self.lot_size@) is Some,
            old(order).price matches Some(p) ==> round_down_to(p@, self.tick_size@) is Some,
        ensures
            Some(final(order).quantity@) == round_down_to(old(order).quantity@, self.lot_size@),
            old(order).price is None ==> final(order).price is None,
            old(order).price matches Some(p) ==> final(order).price matches Some(q) && Some(q@)
                == round_down_to(p@, self.tick_size@),
            final(order).client_id == old(order).client_id,
            final(order).exchange_id == old(order).exchange_id,
            final(order).symbol == old(order).symbol,
            final(order).side == old(order).side,
            final(order).order_type == old(order).order_type,
            final(order).filled_quantity == old(order).filled_quantity,
            final(order).status == old(order).status,
            final(order).created_at == old(order).created_at,
            final(order).updated_at == old(order).updated_at,
    {
        order.quantity = self.round_qty_down(order.quantity);
        if let Some(price) = order.price {
            order.price = Some(self.round_price_down(price));
        }
    }

    /// Rounding that reports overflow: `false` when the price or quantity
    /// computation of [`Self::format_order`] would overflow (the order is
    /// then left unchanged), otherwise the order is formatted.
    pub fn try_format_order(&self, order: &mut Order) -> (r: bool)
        ensures
            r <==> (round_down_to(old(order).quantity@, self.lot_size@) is Some && (old(
                order,
            ).price matches Some(p) ==> round_down_to(p@, self.tick_size@) is Some)),
            !r ==> *final(order) == *old(order),
    {
        if round_down_checked(&order.quantity, &self.lot_size).is_none() {
            return false;
        }
        if let Some(price) = order.price {
            if round_down_checked(&price, &self.tick_size).is_none() {
                return false;
            }
        }
        self.format_order(order);
        true
    }
}

/// A dictionary of tradable instruments keyed by symbol id.
pub struct InstrumentManager {
    instruments: HashMap<SymbolId, Instrument>,
}

impl View for InstrumentManager {
    type V = Map<u32, Instrument>;

    closed spec fn view(&self) -> Map<u32, Instrument> {
        self.instruments@
    }
}

impl InstrumentManager {
    /// An empty dictionary.
    pub fn new() -> (r: InstrumentManager)
        ensures
            r@ == Map::<u32, Instrument>::empty(),
    {
        InstrumentManager { instruments: HashMap::new() }
    }

    /// Adds (or replaces) an instrument under its symbol id.
    pub fn insert(&mut self, instrument: Instrument)
        ensures
            final(self)@ == old(self)@.insert(instrument.symbol_id, instrument),
    {
        let id = instrument.symbol_id;
        self.instruments.insert(id, instrument);
    }

    /// The instrument of a symbol id, if any.
    pub fn get(&self, symbol_id: SymbolId) -> (r: Option<&Instrument>)
        ensures
            self@.contains_key(symbol_id) ==> r == Some(&self@[symbol_id]),
            !self@.contains_key(symbol_id) ==> r is None,
    {
        broadcast use group_hash_axioms;
        self.instruments.get(&symbol_id)
    }
}

impl Default for InstrumentManager {
    fn default() -> (r: InstrumentManager)
        ensures
            r@ == Map::<u32, Instrument>::empty(),
    {
        InstrumentManager::new()
    }
}

} // verus!
