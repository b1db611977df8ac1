//! Stateless risk checks. Each function encodes one atomic risk rule and
//! returns an error describing the violation.

use vstd::prelude::*;
use vstd::string::StringExecFns;
use crate::domain::feed_state::{decimal_digits, u64_to_string};
use crate::domain::decimal::{
    Decimal, abs_int, decimal_checked_div, decimal_checked_mul, decimal_checked_sub, decimal_text,
    lemma_pow10_positive, opt_view, pow10, representable, units,
};

verus! {

/// A violated risk rule.
#[derive(Debug)]
pub enum RiskError {
    /// The open order count reached its cap.
    OpenOrderCount { current: usize, max: usize },
    /// The notional value of an order exceeds the position cap.
    Notional { notional: Decimal, max_usd: Decimal },
    /// The reference price of a sanity check is zero.
    ZeroReferencePrice,
    /// A quote deviates from the reference by more than the tolerance.
    PriceDeviation { deviation_bps: Decimal, tolerance_bps: u32 },
}

/// Ensure the open order count does not exceed the configured cap.
pub fn check_open_order_count(current: usize, max: usize) -> (r: Result<(), RiskError>)
    ensures
        current < max ==> r is Ok,
        current >= max ==> (r matches Err(RiskError::OpenOrderCount { current: c, max: m }) && c
            == current && m == max),
{
    if current >= max {
        return Err(RiskError::OpenOrderCount { current, max });
    }
    Ok(())
}

/// Ensure the notional value `price * quantity` of a single order does not
/// exceed `max_usd`. The product must be computable without overflow.
pub fn check_notional(price: Decimal, quantity: Decimal, max_usd: Decimal) -> (r: Result<
    (),
    RiskError,
>)
    requires
        decimal_checked_mul(price@, quantity@) is Some,
    ensures
        ({
            let n = decimal_checked_mul(price@, quantity@)->0;
            &&& units(n) <= max_usd.value() ==> r is Ok
            &&& units(n) > max_usd.value() ==> (r matches Err(
                RiskError::Notional { notional: nd, max_usd: m },
            ) && nd@ == n && m == max_usd)
        }),
{
    let notional = match price.checked_mul(&quantity) {
        Some(n) => n,
        None => {
            assert(false);
            return Ok(());
        },
    };
    if notional.greater_than(&max_usd) {
        return Err(RiskError::Notional { notional, max_usd });
    }
    Ok(())
}

/// The notional check where the notional can be computed: `None` when
/// `price * quantity` overflows.
pub fn try_check_notional(price: Decimal, quantity: Decimal, max_usd: Decimal) -> (r: Option<
    Result<(), RiskError>,
>)
    ensures
        r is None <==> decimal_checked_mul(price@, quantity@) is None,
        r matches Some(x) ==> ({
            let n = decimal_checked_mul(price@, quantity@)->0;
            &&& units(n) <= max_usd.value() ==> x is Ok
            &&& units(n) > max_usd.value() ==> (x matches Err(
                RiskError::Notional { notional: nd, max_usd: m },
            ) && nd@ == n && m == max_usd)
        }),
{
    if price.checked_mul(&quantity).is_none() {
        return None;
    }
    Some(check_notional(price, quantity, max_usd))
}

/// `(m, s)` with the sign of the mantissa dropped.
pub open spec fn abs_view(d: (int, nat)) -> (int, nat) {
    (abs_int(d.0), d.1)
}

/// `|quote - reference| / reference * 10_000` as computed with decimal
/// arithmetic, `None` where a step overflows or divides by zero.
pub open spec fn deviation_bps(quote: (int, nat), reference: (int, nat)) -> Option<(int, nat)> {
    match decimal_checked_sub(quote, reference) {
        None => None,
        Some(d) => match decimal_checked_div(abs_view(d), reference) {
            None => None,
            Some(q) => decimal_checked_mul(q, (10000int, 0nat)),
        },
    }
}

/// The deviation in basis points in exact arithmetic, in units of 10^-28:
/// `|quote - reference| / reference * 10_000`.
pub open spec fn exact_deviation(quote: int, reference: int) -> int {
    (abs_int(quote - reference) * pow10(28) / reference) * 10000
}

/// Every step of the deviation is exact: the difference, the quotient and
/// the product in basis points are representable decimals.
pub open spec fn deviation_is_exact(quote: int, reference: int) -> bool {
    &&& reference != 0
    &&& representable(quote - reference)
    &&& (abs_int(quote - reference) * pow10(28)) % reference == 0
    &&& representable(abs_int(quote - reference) * pow10(28) / reference)
    &&& representable(exact_deviation(quote, reference))
}

/// `|m| * k == |m * k|` for a positive `k`.
proof fn lemma_abs_mul(m: int, k: int)
    requires
        k > 0,
    ensures
        abs_int(m) * k == abs_int(m * k),
{
    if m < 0 {
        assert(m * k < 0) by (nonlinear_arith)
            requires
                m < 0,
                k > 0,
        ;
        assert((-m) * k == -(m * k)) by (nonlinear_arith);
    } else {
        assert(m * k >= 0) by (nonlinear_arith)
            requires
                m >= 0,
                k > 0,
        ;
    }
}

/// `|quote - reference| / reference * 10_000`, or `None` where a step of
/// the decimal computation overflows or divides by zero; the exact
/// deviation whenever every step is exact.
pub fn price_deviation_bps(quote: &Decimal, reference: &Decimal) -> (r: Option<Decimal>)
    ensures
        opt_view(r) == deviation_bps(quote@, reference@),
        deviation_is_exact(quote.value(), reference.value()) ==> r is Some && r->0.value()
            == exact_deviation(quote.value(), reference.value()),
{
    let diff = match quote.checked_sub(reference) {
        Some(d) => d,
        None => return None,
    };
    let a = diff.abs();
    proof {
        lemma_pow10_positive((28 - diff@.1) as nat);
        lemma_abs_mul(diff@.0, pow10((28 - diff@.1) as nat));
        assert(a.value() == abs_int(diff.value()));
    }
    let quotient = match a.checked_div(reference) {
        Some(q) => q,
        None => return None,
    };
    let bps = Decimal::new(10000, 0);
    proof {
        let p = pow10(28);
        lemma_pow10_positive(28);
        assert(bps.value() == 10000 * p);
        let qv = quotient.value();
        assert(qv * (10000 * p) == (qv * 10000) * p) by (nonlinear_arith);
        vstd::arithmetic::div_mod::lemma_mod_multiples_basic(qv * 10000, p);
        vstd::arithmetic::div_mod::lemma_div_multiples_vanish(qv * 10000, p);
        vstd::arithmetic::mul::lemma_mul_is_commutative(qv * 10000, p);
    }
    quotient.checked_mul(&bps)
}

/// Ensure a quote lies within `tolerance_bps` basis points of the
/// reference price. A zero reference is an error. The deviation must be
/// computable without overflow.
pub fn check_price_sanity(quote_price: Decimal, reference_price: Decimal, tolerance_bps: u32) -> (r:
    Result<(), RiskError>)
    requires
        reference_price.value() != 0 ==> deviation_bps(quote_price@, reference_price@) is Some
            || deviation_is_exact(quote_price.value(), reference_price.value()),
    ensures
        reference_price.value() == 0 ==> r matches Err(RiskError::ZeroReferencePrice),
        reference_price.value() != 0 ==> ({
            let d = deviation_bps(quote_price@, reference_price@)->0;
            &&& units(d) <= tolerance_bps * pow10(28) ==> r is Ok
            &&& units(d) > tolerance_bps * pow10(28) ==> (r matches Err(
                RiskError::PriceDeviation { deviation_bps: dd, tolerance_bps: t },
            ) && dd@ == d && t == tolerance_bps)
        }),
        deviation_is_exact(quote_price.value(), reference_price.value()) ==> (r is Ok <==> exact_deviation(
            quote_price.value(),
            reference_price.value(),
        ) <= tolerance_bps * pow10(28)),
{
    if reference_price.is_zero() {
        return Err(RiskError::ZeroReferencePrice);
    }
    let deviation = match price_deviation_bps(&quote_price, &reference_price) {
        Some(d) => d,
        None => {
            assert(false);
            return Ok(());
        },
    };
    let max_bps = Decimal::new(tolerance_bps as i64, 0);
    if deviation.greater_than(&max_bps) {
        return Err(RiskError::PriceDeviation { deviation_bps: deviation, tolerance_bps });
    }
    Ok(())
}

/// The price sanity check where its deviation can be computed: `None`
/// when a step of the computation overflows.
pub fn try_check_price_sanity(quote_price: Decimal, reference_price: Decimal, tolerance_bps: u32) -> (r:
    Option<Result<(), RiskError>>)
    ensures
        reference_price.value() != 0 && deviation_bps(quote_price@, reference_price@) is None
            <==> r is None,
        reference_price.value() == 0 ==> (r matches Some(x) && x matches Err(
            RiskError::ZeroReferencePrice,
        )),
        reference_price.value() != 0 && deviation_bps(quote_price@, reference_price@) is Some ==> ({
            let d = deviation_bps(quote_price@, reference_price@)->0;
            &&& units(d) <= tolerance_bps * pow10(28) ==> (r matches Some(x) && x is Ok)
            &&& units(d) > tolerance_bps * pow10(28) ==> (r matches Some(x) && x matches Err(
                RiskError::PriceDeviation { deviation_bps: dd, tolerance_bps: t },
            ) && dd@ == d && t == tolerance_bps)
        }),
        deviation_is_exact(quote_price.value(), reference_price.value()) ==> (r matches Some(x) && (x
            is Ok <==> exact_deviation(quote_price.value(), reference_price.value())
            <= tolerance_bps * pow10(28))),
{
    if !reference_price.is_zero() {
        if price_deviation_bps(&quote_price, &reference_price).is_none() {
            return None;
        }
    }
    Some(check_price_sanity(quote_price, reference_price, tolerance_bps))
}

/// The message of a violated risk rule.
pub open spec fn risk_error_text(e: RiskError) -> Seq<char> {
    match e {
        RiskError::OpenOrderCount { current, max } => "Risk check failed: open order count "@
            + decimal_digits(current as nat) + " >= max "@ + decimal_digits(max as nat),
        RiskError::Notional { notional, max_usd } => "Risk check failed: notional "@ + decimal_text(
            notional@.0,
            notional@.1,
        ) + " > max_position_usd "@ + decimal_text(max_usd@.0, max_usd@.1),
        RiskError::ZeroReferencePrice => "Risk check failed: reference price is zero"@,
        RiskError::PriceDeviation { deviation_bps, tolerance_bps } =>
            "Risk check failed: price deviation "@ + decimal_text(deviation_bps@.0, deviation_bps@.1)
            + " bps > tolerance "@ + decimal_digits(tolerance_bps as nat) + " bps"@,
    }
}

impl RiskError {
    /// The error's message, e.g.
    /// `Risk check failed: open order count 20 >= max 20`.
    pub fn to_string(&self) -> (r: String)
        ensures
            r@ == risk_error_text(*self),
    {
        match self {
            RiskError::OpenOrderCount { current, max } => {
                let mut s = "Risk check failed: open order count ".to_owned();
                s.append(u64_to_string(*current as u64).as_str());
                s.append(" >= max ");
                s.append(u64_to_string(*max as u64).as_str());
                s
            },
            RiskError::Notional { notional, max_usd } => {
                let mut s = "Risk check failed: notional ".to_owned();
                s.append(notional.to_string().as_str());
                s.append(" > max_position_usd ");
                s.append(max_usd.to_string().as_str());
                s
            },
            RiskError::ZeroReferencePrice => "Risk check failed: reference price is zero".to_owned(),
            RiskError::PriceDeviation { deviation_bps, tolerance_bps } => {
                let mut s = "Risk check failed: price deviation ".to_owned();
                s.append(deviation_bps.to_string().as_str());
                s.append(" bps > tolerance ");
                s.append(u64_to_string(*tolerance_bps as u64).as_str());
                s.append(" bps");
                s
            },
        }
    }
}

} // verus!
