//! Fixed-point decimal numbers with the representation of `rust_decimal`:
//! a 96-bit signed mantissa and a scale (number of fractional digits) of
//! at most 28. All arithmetic is performed by `rust_decimal` itself.

use vstd::prelude::*;

verus! {

/// Largest scale (number of fractional digits) a decimal can carry.
pub const MAX_SCALE: u32 = 28;

/// Largest magnitude of the mantissa: 2^96 - 1.
pub const MAX_MANTISSA: i128 = 79228162514264337593543950335;

/// 10^n.
pub open spec fn pow10(n: nat) -> int
    decreases n,
{
    if n == 0 {
        1
    } else {
        10 * pow10((n - 1) as nat)
    }
}

/// Every power of ten is positive.
pub proof fn lemma_pow10_positive(n: nat)
    ensures
        pow10(n) >= 1,
    decreases n,
{
    if n > 0 {
        lemma_pow10_positive((n - 1) as nat);
    }
}

/// Powers of ten grow with the exponent.
pub proof fn lemma_pow10_monotonic(a: nat, b: nat)
    requires
        a <= b,
    ensures
        pow10(a) <= pow10(b),
    decreases b,
{
    if a < b {
        lemma_pow10_monotonic(a, (b - 1) as nat);
        lemma_pow10_positive((b - 1) as nat);
    }
}

/// Powers of ten multiply by adding exponents.
pub proof fn lemma_pow10_add(a: nat, b: nat)
    ensures
        pow10(a + b) == pow10(a) * pow10(b),
    decreases a,
{
    if a > 0 {
        lemma_pow10_add((a - 1) as nat, b);
        assert(pow10(a + b) == 10 * pow10((a - 1 + b) as nat));
        vstd::arithmetic::mul::lemma_mul_is_associative(10, pow10((a - 1) as nat), pow10(b));
    }
}

/// The value of a (mantissa, scale) pair, counted in units of 10^-28.
pub open spec fn units(v: (int, nat)) -> int {
    v.0 * pow10((28 - v.1) as nat)
}

/// `v` (in units of 10^-28) can be written with some scale of at most 28
/// and a mantissa of at most 96 bits.
pub open spec fn representable(v: int) -> bool {
    exists|s: nat|
        #![trigger pow10((28 - s) as nat)]
        s <= 28 && v % pow10((28 - s) as nat) == 0 && -MAX_MANTISSA <= v / pow10((28 - s) as nat)
            <= MAX_MANTISSA
}

/// A decimal number `mantissa * 10^-scale`.
#[derive(Clone, Copy, Debug)]
pub struct Decimal {
    mantissa: i128,
    scale: u32,
}

impl View for Decimal {
    type V = (int, nat);

    closed spec fn view(&self) -> (int, nat) {
        (self.mantissa as int, self.scale as nat)
    }
}

impl Decimal {
    #[verifier::type_invariant]
    pub closed spec fn inv(self) -> bool {
        &&& self.scale <= MAX_SCALE
        &&& -MAX_MANTISSA <= self.mantissa <= MAX_MANTISSA
    }

    /// The numeric value, in units of 10^-28.
    pub open spec fn value(self) -> int {
        units(self@)
    }

    /// Well-formedness of the representation.
    pub open spec fn wf(self) -> bool {
        &&& self@.1 <= 28
        &&& -MAX_MANTISSA <= self@.0 <= MAX_MANTISSA
    }

    /// Creates `num * 10^-scale`.
    pub fn new(num: i64, scale: u32) -> (r: Decimal)
        requires
            scale <= MAX_SCALE,
        ensures
            r@ == (num as int, scale as nat),
    {
        Decimal { mantissa: num as i128, scale }
    }

    /// Creates `num * 10^-scale` from a 128-bit mantissa.
    pub fn from_i128_with_scale(num: i128, scale: u32) -> (r: Decimal)
        requires
            scale <= MAX_SCALE,
            -MAX_MANTISSA <= num <= MAX_MANTISSA,
        ensures
            r@ == (num as int, scale as nat),
    {
        Decimal { mantissa: num, scale }
    }

    /// Zero.
    pub fn zero() -> (r: Decimal)
        ensures
            r@ == (0int, 0nat),
            r.value() == 0,
    {
        Decimal { mantissa: 0, scale: 0 }
    }

    /// Two.
    pub fn two() -> (r: Decimal)
        ensures
            r@ == (2int, 0nat),
    {
        Decimal { mantissa: 2, scale: 0 }
    }

    /// The mantissa.
    pub fn mantissa(&self) -> (r: i128)
        ensures
            r == self@.0,
    {
        self.mantissa
    }

    /// The scale.
    pub fn scale(&self) -> (r: u32)
        ensures
            r == self@.1,
    {
        self.scale
    }

    /// Every decimal is well formed.
    pub fn lemma_wf(&self)
        ensures
            self.wf(),
    {
        proof {
            use_type_invariant(self);
        }
    }

    /// The value of every decimal lies within the range of the type.
    pub fn lemma_value_range(&self)
        ensures
            -max_units() <= self.value() <= max_units(),
    {
        proof {
            use_type_invariant(self);
            let p = pow10((28 - self.scale) as nat);
            lemma_pow10_monotonic((28 - self.scale) as nat, 28);
            lemma_pow10_positive((28 - self.scale) as nat);
            let m = self.mantissa as int;
            if m >= 0 {
                vstd::arithmetic::mul::lemma_mul_inequality(m, MAX_MANTISSA as int, p);
                vstd::arithmetic::mul::lemma_mul_inequality(p, pow10(28), MAX_MANTISSA as int);
                vstd::arithmetic::mul::lemma_mul_is_commutative(p, MAX_MANTISSA as int);
            } else {
                vstd::arithmetic::mul::lemma_mul_inequality(-m, MAX_MANTISSA as int, p);
                vstd::arithmetic::mul::lemma_mul_inequality(p, pow10(28), MAX_MANTISSA as int);
                vstd::arithmetic::mul::lemma_mul_is_commutative(p, MAX_MANTISSA as int);
                vstd::arithmetic::mul::lemma_mul_unary_negation(m, p);
            }
        }
    }

    /// `true` when the value is zero.
    pub fn is_zero(&self) -> (r: bool)
        ensures
            r == (self.value() == 0),
    {
        proof {
            use_type_invariant(self);
            lemma_pow10_positive((28 - self.scale) as nat);
            vstd::arithmetic::mul::lemma_mul_nonzero(self.mantissa as int, pow10((28 - self.scale) as nat));
        }
        self.mantissa == 0
    }

    /// Absolute value, with the same scale.
    pub fn abs(&self) -> (r: Decimal)
        ensures
            r@.1 == self@.1,
            r@.0 == if self@.0 < 0 { -self@.0 } else { self@.0 },
    {
        proof {
            use_type_invariant(self);
        }
        if self.mantissa < 0 {
            Decimal { mantissa: -self.mantissa, scale: self.scale }
        } else {
            *self
        }
    }

    /// `self < other`, comparing values.
    pub fn less_than(&self, other: &Decimal) -> (r: bool)
        ensures
            r == (self.value() < other.value()),
    {
        rd_lt(self, other)
    }

    /// `self > other`, comparing values.
    pub fn greater_than(&self, other: &Decimal) -> (r: bool)
        ensures
            r == (self.value() > other.value()),
    {
        rd_lt(other, self)
    }
}

/// Calls `<rust_decimal::Decimal as PartialOrd>::lt`: numeric comparison,
/// independent of the scales.
#[verifier::external_body]
fn rd_lt(a: &Decimal, b: &Decimal) -> (r: bool)
    ensures
        r == (a.value() < b.value()),
{
    let x = rust_decimal::Decimal::from_i128_with_scale(a.mantissa, a.scale);
    let y = rust_decimal::Decimal::from_i128_with_scale(b.mantissa, b.scale);
    x < y
}

/// Calls `<rust_decimal::Decimal as PartialEq>::eq`: numeric equality,
/// independent of the scales.
#[verifier::external_body]
fn rd_eq(a: &Decimal, b: &Decimal) -> (r: bool)
    ensures
        r == (a.value() == b.value()),
{
    let x = rust_decimal::Decimal::from_i128_with_scale(a.mantissa, a.scale);
    let y = rust_decimal::Decimal::from_i128_with_scale(b.mantissa, b.scale);
    x == y
}

impl PartialEq for Decimal {
    fn eq(&self, other: &Decimal) -> (r: bool) {
        rd_eq(self, other)
    }
}

impl vstd::std_specs::cmp::PartialEqSpecImpl for Decimal {
    open spec fn obeys_eq_spec() -> bool {
        true
    }

    open spec fn eq_spec(&self, other: &Decimal) -> bool {
        self.value() == other.value()
    }
}


/// The largest magnitude a decimal can hold, in units of 10^-28.
pub open spec fn max_units() -> int {
    MAX_MANTISSA * pow10(28)
}

/// The view of an optional decimal.
pub open spec fn opt_view(o: Option<Decimal>) -> Option<(int, nat)> {
    match o {
        Some(d) => Some(d@),
        None => None,
    }
}

/// What `rust_decimal::Decimal::checked_add` returns for two decimals given
/// as (mantissa, scale), rounding included.
pub uninterp spec fn decimal_checked_add(a: (int, nat), b: (int, nat)) -> Option<(int, nat)>;

/// What `rust_decimal::Decimal::checked_sub` returns.
pub uninterp spec fn decimal_checked_sub(a: (int, nat), b: (int, nat)) -> Option<(int, nat)>;

/// What `rust_decimal::Decimal::checked_mul` returns.
pub uninterp spec fn decimal_checked_mul(a: (int, nat), b: (int, nat)) -> Option<(int, nat)>;

/// What `rust_decimal::Decimal::checked_div` returns.
pub uninterp spec fn decimal_checked_div(a: (int, nat), b: (int, nat)) -> Option<(int, nat)>;

/// Calls `rust_decimal::Decimal::checked_add`. The result is named; beside
/// the name the contract states what the crate documents: the sum is exact
/// whenever it is representable, and there is a result whenever the exact
/// sum lies within the range of the type (it is `None` only on overflow).
/// How the sum is rounded when it is not representable is left unsaid.
#[verifier::external_body]
fn rd_checked_add(a: Decimal, b: Decimal) -> (r: Option<Decimal>)
    ensures
        opt_view(r) == decimal_checked_add(a@, b@),
        -max_units() <= a.value() + b.value() <= max_units() ==> r is Some,
        representable(a.value() + b.value()) ==> r is Some && r->0.value() == a.value()
            + b.value(),
{
    let x = rust_decimal::Decimal::from_i128_with_scale(a.mantissa, a.scale);
    let y = rust_decimal::Decimal::from_i128_with_scale(b.mantissa, b.scale);
    match x.checked_add(y) {
        Some(z) => Some(Decimal { mantissa: z.mantissa(), scale: z.scale() }),
        None => None,
    }
}

/// Calls `rust_decimal::Decimal::checked_sub`; the contract is that of
/// addition, for the difference.
#[verifier::external_body]
fn rd_checked_sub(a: Decimal, b: Decimal) -> (r: Option<Decimal>)
    ensures
        opt_view(r) == decimal_checked_sub(a@, b@),
        -max_units() <= a.value() - b.value() <= max_units() ==> r is Some,
        representable(a.value() - b.value()) ==> r is Some && r->0.value() == a.value()
            - b.value(),
{
    let x = rust_decimal::Decimal::from_i128_with_scale(a.mantissa, a.scale);
    let y = rust_decimal::Decimal::from_i128_with_scale(b.mantissa, b.scale);
    match x.checked_sub(y) {
        Some(z) => Some(Decimal { mantissa: z.mantissa(), scale: z.scale() }),
        None => None,
    }
}

/// Calls `rust_decimal::Decimal::checked_mul`. The result is named; beside
/// the name: a result exists whenever the exact product lies within the
/// range of the type, and it is exact whenever the exact product is
/// representable (the crate drops fractional digits only as far as the
/// mantissa and the scale limit require, and a representable product loses
/// nothing there).
#[verifier::external_body]
fn rd_checked_mul(a: Decimal, b: Decimal) -> (r: Option<Decimal>)
    ensures
        opt_view(r) == decimal_checked_mul(a@, b@),
        -MAX_MANTISSA * pow10(a@.1 + b@.1) <= a@.0 * b@.0 <= MAX_MANTISSA * pow10(a@.1 + b@.1)
            ==> r is Some,
        a@.1 + b@.1 <= 28 && -MAX_MANTISSA <= a@.0 * b@.0 <= MAX_MANTISSA ==> r is Some
            && r->0.value() == a@.0 * b@.0 * pow10((28 - a@.1 - b@.1) as nat),
        (a.value() * b.value()) % pow10(28) == 0 && representable(
            (a.value() * b.value()) / pow10(28),
        ) ==> r is Some && r->0.value() == (a.value() * b.value()) / pow10(28),
{
    let x = rust_decimal::Decimal::from_i128_with_scale(a.mantissa, a.scale);
    let y = rust_decimal::Decimal::from_i128_with_scale(b.mantissa, b.scale);
    match x.checked_mul(y) {
        Some(z) => Some(Decimal { mantissa: z.mantissa(), scale: z.scale() }),
        None => None,
    }
}

/// Calls `rust_decimal::Decimal::checked_div`. The result is named; beside
/// the name: division by zero gives `None`; a nonzero divisor gives a result
/// whenever the exact quotient lies within the range of the type, and that
/// result is exact whenever the exact quotient is representable.
#[verifier::external_body]
fn rd_checked_div(a: Decimal, b: Decimal) -> (r: Option<Decimal>)
    ensures
        opt_view(r) == decimal_checked_div(a@, b@),
        b.value() == 0 ==> r is None,
        b.value() != 0 && -MAX_MANTISSA * abs_int(b.value()) <= a.value() <= MAX_MANTISSA
            * abs_int(b.value()) ==> r is Some,
        b.value() != 0 && (a.value() * pow10(28)) % b.value() == 0 && representable(
            (a.value() * pow10(28)) / b.value(),
        ) ==> r is Some && r->0.value() == (a.value() * pow10(28)) / b.value(),
{
    let x = rust_decimal::Decimal::from_i128_with_scale(a.mantissa, a.scale);
    let y = rust_decimal::Decimal::from_i128_with_scale(b.mantissa, b.scale);
    match x.checked_div(y) {
        Some(z) => Some(Decimal { mantissa: z.mantissa(), scale: z.scale() }),
        None => None,
    }
}

/// |v|.
pub open spec fn abs_int(v: int) -> int {
    if v < 0 {
        -v
    } else {
        v
    }
}

/// `v` (in units of 10^-28) truncated toward zero to a whole number.
pub open spec fn trunc_units(v: int) -> int {
    if v >= 0 {
        (v / pow10(28)) * pow10(28)
    } else {
        -(((-v) / pow10(28)) * pow10(28))
    }
}

/// Calls `rust_decimal::Decimal::trunc`: drops the fractional digits
/// (rounding toward zero) and returns a decimal of scale 0.
#[verifier::external_body]
fn rd_trunc(a: Decimal) -> (r: Decimal)
    ensures
        r@.1 == 0,
        r.value() == trunc_units(a.value()),
{
    let x = rust_decimal::Decimal::from_i128_with_scale(a.mantissa, a.scale);
    let z = x.trunc();
    Decimal { mantissa: z.mantissa(), scale: z.scale() }
}

/// The mantissa of `m * 10^-s` rounded to `dp` fractional digits, halves
/// rounded away from zero (`s > dp`).
pub open spec fn round_half_away(m: int, s: nat, dp: nat) -> int {
    let d = pow10((s - dp) as nat);
    let q = abs_int(m) / d;
    let rem = abs_int(m) % d;
    let mag = if 2 * rem >= d {
        q + 1
    } else {
        q
    };
    if m < 0 {
        -mag
    } else {
        mag
    }
}

/// Calls `rust_decimal::Decimal::round_dp_with_strategy` with
/// `RoundingStrategy::MidpointAwayFromZero`: a decimal with at most `dp`
/// fractional digits is returned unchanged; any other is rounded to `dp`
/// digits, halves away from zero.
#[verifier::external_body]
fn rd_round_dp_half_away(a: Decimal, dp: u32) -> (r: Decimal)
    ensures
        a@.1 <= dp ==> r@ == a@,
        a@.1 > dp ==> r@ == (round_half_away(a@.0, a@.1, dp as nat), dp as nat),
{
    let x = rust_decimal::Decimal::from_i128_with_scale(a.mantissa, a.scale);
    let z = x.round_dp_with_strategy(dp, rust_decimal::RoundingStrategy::MidpointAwayFromZero);
    Decimal { mantissa: z.mantissa(), scale: z.scale() }
}

/// The decimal digits of `n`.
pub open spec fn nat_digits(n: nat) -> Seq<char>
    decreases n,
{
    if n < 10 {
        seq![digit_of(n)]
    } else {
        nat_digits(n / 10).push(digit_of(n % 10))
    }
}

/// The character of a decimal digit.
pub open spec fn digit_of(d: nat) -> char {
    if d < 10 {
        ((d + 48) as u8) as char
    } else {
        '?'
    }
}

/// The text of `m * 10^-s`: an optional minus sign, the digits of |m|
/// (padded with leading zeros to more than `s` digits) and, when `s > 0`,
/// a point before the last `s` digits. Trailing zeros are kept.
pub open spec fn decimal_text(m: int, s: nat) -> Seq<char> {
    let d = nat_digits(abs_int(m) as nat);
    let padded = if d.len() <= s {
        Seq::new((s + 1 - d.len()) as nat, |i: int| '0') + d
    } else {
        d
    };
    let n = padded.len();
    let body = if s == 0 {
        padded
    } else {
        padded.subrange(0, n - s) + seq!['.'] + padded.subrange(n - s, n as int)
    };
    if m < 0 {
        seq!['-'] + body
    } else {
        body
    }
}

/// What `rust_decimal::Decimal::from_str` gives for a text, as (mantissa,
/// scale); `None` where it refuses the text.
pub uninterp spec fn decimal_parse(text: Seq<char>) -> Option<(int, nat)>;

/// Calls `<rust_decimal::Decimal as FromStr>::from_str`. The result is
/// named: the crate's text grammar and its rounding of long fractions take
/// pages to state.
#[verifier::external_body]
pub(crate) fn rd_from_str(text: &str) -> (r: Option<Decimal>)
    ensures
        opt_view(r) == decimal_parse(text@),
{
    match <rust_decimal::Decimal as core::str::FromStr>::from_str(text) {
        Ok(z) => Some(Decimal { mantissa: z.mantissa(), scale: z.scale() }),
        Err(_) => None,
    }
}

/// Calls `<rust_decimal::Decimal as Display>::to_string`: the plain
/// decimal text of the number, with all `scale` fractional digits.
#[verifier::external_body]
fn rd_to_string(a: Decimal) -> (r: String)
    ensures
        r@ == decimal_text(a@.0, a@.1),
{
    rust_decimal::Decimal::from_i128_with_scale(a.mantissa, a.scale).to_string()
}

impl Decimal {
    /// The decimal text of the number, e.g. `1.500` for mantissa 1500 at
    /// scale 3.
    pub fn to_string(&self) -> (r: String)
        ensures
            r@ == decimal_text(self@.0, self@.1),
    {
        rd_to_string(*self)
    }

    /// `self + other`, `None` on overflow.
    pub fn checked_add(&self, other: &Decimal) -> (r: Option<Decimal>)
        ensures
            opt_view(r) == decimal_checked_add(self@, other@),
            -max_units() <= self.value() + other.value() <= max_units() ==> r is Some,
            representable(self.value() + other.value()) ==> r is Some && r->0.value()
                == self.value() + other.value(),
    {
        rd_checked_add(*self, *other)
    }

    /// `self - other`, `None` on overflow.
    pub fn checked_sub(&self, other: &Decimal) -> (r: Option<Decimal>)
        ensures
            opt_view(r) == decimal_checked_sub(self@, other@),
            -max_units() <= self.value() - other.value() <= max_units() ==> r is Some,
            representable(self.value() - other.value()) ==> r is Some && r->0.value()
                == self.value() - other.value(),
    {
        rd_checked_sub(*self, *other)
    }

    /// `self * other`, `None` on overflow.
    pub fn checked_mul(&self, other: &Decimal) -> (r: Option<Decimal>)
        ensures
            opt_view(r) == decimal_checked_mul(self@, other@),
            -MAX_MANTISSA * pow10(self@.1 + other@.1) <= self@.0 * other@.0 <= MAX_MANTISSA
                * pow10(self@.1 + other@.1) ==> r is Some,
            self@.1 + other@.1 <= 28 && -MAX_MANTISSA <= self@.0 * other@.0 <= MAX_MANTISSA
                ==> r is Some && r->0.value() == self@.0 * other@.0 * pow10(
                (28 - self@.1 - other@.1) as nat,
            ),
            (self.value() * other.value()) % pow10(28) == 0 && representable(
                (self.value() * other.value()) / pow10(28),
            ) ==> r is Some && r->0.value() == (self.value() * other.value()) / pow10(28),
    {
        rd_checked_mul(*self, *other)
    }

    /// `self / other`, `None` on division by zero or overflow.
    pub fn checked_div(&self, other: &Decimal) -> (r: Option<Decimal>)
        ensures
            opt_view(r) == decimal_checked_div(self@, other@),
            other.value() == 0 ==> r is None,
            other.value() != 0 && -MAX_MANTISSA * abs_int(other.value()) <= self.value()
                <= MAX_MANTISSA * abs_int(other.value()) ==> r is Some,
            other.value() != 0 && (self.value() * pow10(28)) % other.value() == 0
                && representable((self.value() * pow10(28)) / other.value()) ==> r is Some
                && r->0.value() == (self.value() * pow10(28)) / other.value(),
    {
        rd_checked_div(*self, *other)
    }

    /// The integral part, rounding toward zero (scale 0).
    pub fn trunc(&self) -> (r: Decimal)
        ensures
            r@.1 == 0,
            r.value() == trunc_units(self.value()),
    {
        rd_trunc(*self)
    }

    /// Rounds to `dp` fractional digits, halves away from zero.
    pub fn round_dp_half_away(&self, dp: u32) -> (r: Decimal)
        ensures
            self@.1 <= dp ==> r@ == self@,
            self@.1 > dp ==> r@ == (round_half_away(self@.0, self@.1, dp as nat), dp as nat),
    {
        rd_round_dp_half_away(*self, dp)
    }
}

} // verus!
