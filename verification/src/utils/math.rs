//! Financial math helpers.

use vstd::prelude::*;
use crate::domain::decimal::{
    Decimal, decimal_checked_div, lemma_pow10_add, lemma_pow10_monotonic, lemma_pow10_positive,
    opt_view, representable, round_half_away, MAX_MANTISSA, pow10,
};
use crate::risk_manager::checks::{deviation_bps, deviation_is_exact, exact_deviation, price_deviation_bps};

verus! {

/// Spread between two prices in basis points:
/// `|price - reference| / reference * 10_000`; `None` for a zero
/// reference. The computation must not overflow.
pub fn spread_bps(price: Decimal, reference: Decimal) -> (r: Option<Decimal>)
    requires
        reference.value() != 0 ==> deviation_bps(price@, reference@) is Some
            || deviation_is_exact(price.value(), reference.value()),
    ensures
        reference.value() == 0 ==> r is None,
        reference.value() != 0 ==> opt_view(r) == deviation_bps(price@, reference@),
        deviation_is_exact(price.value(), reference.value()) ==> r is Some && r->0.value()
            == exact_deviation(price.value(), reference.value()),
{
    if reference.is_zero() {
        return None;
    }
    price_deviation_bps(&price, &reference)
}

/// The spread in basis points where it can be computed: `None` when the
/// computation of [`spread_bps`] would overflow, `Some` of its result
/// otherwise.
pub fn try_spread_bps(price: Decimal, reference: Decimal) -> (r: Option<Option<Decimal>>)
    ensures
        reference.value() != 0 && deviation_bps(price@, reference@) is None <==> r is None,
        r matches Some(s) ==> (reference.value() == 0 ==> s is None) && (reference.value() != 0
            ==> opt_view(s) == deviation_bps(price@, reference@)),
{
    if !reference.is_zero() && price_deviation_bps(&price, &reference).is_none() {
        return None;
    }
    Some(spread_bps(price, reference))
}

/// A decimal `m * 10^-s` whose value is a whole multiple of 10_000 units
/// divides by 10_000 exactly: the quotient is representable.
proof fn lemma_div_10000_exact(m: int, s: nat)
    requires
        s <= 28,
        -MAX_MANTISSA <= m <= MAX_MANTISSA,
        (m * pow10((28 - s) as nat)) % 10000 == 0,
    ensures
        ({
            let v = m * pow10((28 - s) as nat);
            &&& (v * pow10(28)) % (10000 * pow10(28)) == 0
            &&& (v * pow10(28)) / (10000 * pow10(28)) == v / 10000
            &&& representable(v / 10000)
        }),
{
    let v = m * pow10((28 - s) as nat);
    let p = pow10(28);
    let k = v / 10000;
    lemma_pow10_positive(28);
    vstd::arithmetic::div_mod::lemma_fundamental_div_mod(v, 10000);
    assert(v == 10000 * k);
    assert(v * p == k * (10000 * p)) by (nonlinear_arith)
        requires
            v == 10000 * k,
    ;
    assert(10000 * p > 0);
    vstd::arithmetic::div_mod::lemma_mod_multiples_basic(k, 10000 * p);
    vstd::arithmetic::div_mod::lemma_div_multiples_vanish(k, 10000 * p);
    vstd::arithmetic::mul::lemma_mul_is_commutative(k, 10000 * p);
    if s <= 24 {
        let e = (24 - s) as nat;
        lemma_pow10_add(e, 4);
        assert(pow10(4) == 10000) by {
            reveal_with_fuel(pow10, 5);
        }
        assert((e + 4) as nat == (28 - s) as nat);
        assert(v == 10000 * (m * pow10(e))) by (nonlinear_arith)
            requires
                v == m * pow10((28 - s) as nat),
                pow10((28 - s) as nat) == pow10(e) * 10000,
        ;
        assert(k == m * pow10(e));
        lemma_pow10_positive(e);
        vstd::arithmetic::div_mod::lemma_mod_multiples_basic(m, pow10(e));
        vstd::arithmetic::div_mod::lemma_div_multiples_vanish(m, pow10(e));
        vstd::arithmetic::mul::lemma_mul_is_commutative(m, pow10(e));
        let s4 = (s + 4) as nat;
        assert(pow10((28 - s4) as nat) == pow10(e));
        assert(s4 <= 28 && k % pow10((28 - s4) as nat) == 0 && -MAX_MANTISSA <= k / pow10(
            (28 - s4) as nat,
        ) <= MAX_MANTISSA);
    } else {
        let e = (28 - s) as nat;
        lemma_pow10_monotonic(e, 3);
        lemma_pow10_positive(e);
        assert(pow10(3) == 1000) by {
            reveal_with_fuel(pow10, 4);
        }
        let q = pow10(e);
        assert(-MAX_MANTISSA <= k <= MAX_MANTISSA) by (nonlinear_arith)
            requires
                v == 10000 * k,
                v == m * q,
                1 <= q <= 1000,
                -MAX_MANTISSA <= m <= MAX_MANTISSA,
        ;
        assert(pow10((28 - 28nat) as nat) == 1);
        assert(k % pow10((28 - 28nat) as nat) == 0 && k / pow10((28 - 28nat) as nat) == k);
    }
}

/// Basis points as a decimal factor: `bps / 10_000` (50 bps → 0.005),
/// exact whenever the value is a whole multiple of 10_000 units of 10^-28.
pub fn bps_to_factor(bps: Decimal) -> (r: Decimal)
    ensures
        Some(r@) == decimal_checked_div(bps@, (10000int, 0nat)),
        bps.value() % 10000 == 0 ==> r.value() == bps.value() / 10000,
{
    bps.lemma_wf();
    proof {
        if bps.value() % 10000 == 0 {
            lemma_div_10000_exact(bps@.0, bps@.1);
        }
    }
    let ten_thousand = Decimal::new(10000, 0);
    bps.lemma_value_range();
    proof {
        crate::domain::decimal::lemma_pow10_positive(28);
        assert(ten_thousand.value() == 10000 * pow10(28));
        assert(crate::domain::decimal::max_units() == MAX_MANTISSA * pow10(28));
    }
    match bps.checked_div(&ten_thousand) {
        Some(f) => f,
        None => {
            assert(false);
            bps
        },
    }
}

/// Rounds `value` to `places` decimal places, halves rounded up (away from
/// zero); a value with fewer places is returned unchanged.
pub fn round_to(value: Decimal, places: u32) -> (r: Decimal)
    ensures
        value@.1 <= places ==> r@ == value@,
        value@.1 > places ==> r@ == (round_half_away(value@.0, value@.1, places as nat), places as nat),
{
    value.round_dp_half_away(places)
}

} // verus!
