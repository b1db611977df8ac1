//! Application configuration structures, and the rules that turn the text
//! of environment variables into settings: a numeric setting takes its
//! default when absent and is refused when its text is not a number, and
//! the exchange credentials are
//! read from production or testnet variables by the application
//! environment. Reading the environment is the application's job.

use vstd::prelude::*;
use vstd::string::StringExecFns;
use crate::domain::decimal::Decimal;

verus! {

/// Database connection settings.
#[derive(Clone, Debug)]
pub struct DatabaseConfig {
    pub url: String,
    pub max_connections: u32,
    pub min_connections: u32,
    pub timeout_seconds: u64,
}

/// Exchange credentials and endpoints.
#[derive(Clone, Debug)]
pub struct ExchangeConfig {
    pub api_key: String,
    pub api_secret: String,
    pub rest_url: String,
    pub ws_url: String,
}

/// Risk limits. Amounts are decimals.
#[derive(Clone, Copy, Debug)]
pub struct RiskConfig {
    pub max_drawdown_pct: Decimal,
    pub max_position_usd: Decimal,
    pub max_open_orders: usize,
    pub daily_loss_limit_usd: Decimal,
    pub order_rate_limit_per_sec: u32,
}

/// WebSocket connection settings.
#[derive(Clone, Copy, Debug)]
pub struct WebSocketConfig {
    pub reconnect_delay_ms: u64,
    pub max_reconnect_attempts: u32,
    pub ping_interval_seconds: u64,
    pub message_buffer_size: usize,
}

/// `c` is an ASCII decimal digit.
pub open spec fn is_digit(c: char) -> bool {
    '0' <= c && c <= '9'
}

/// The number written by a string of decimal digits.
pub open spec fn digits_value(s: Seq<char>) -> nat
    decreases s.len(),
{
    if s.len() == 0 {
        0
    } else {
        digits_value(s.drop_last()) * 10 + ((s.last() as int - '0' as int) as nat)
    }
}

/// The value of the text of an unsigned integer: an optional `+` followed
/// by one or more ASCII digits, and nothing else; `None` for other text.
pub open spec fn unsigned_value(s: Seq<char>) -> Option<nat> {
    let d = if s.len() > 0 && s[0] == '+' {
        s.drop_first()
    } else {
        s
    };
    if d.len() > 0 && (forall|i: int| 0 <= i < d.len() ==> is_digit(#[trigger] d[i])) {
        Some(digits_value(d))
    } else {
        None
    }
}

/// The value `str::parse` gives for an unsigned type whose largest value
/// is `max`: the text's value where it is one and fits.
pub open spec fn parsed_unsigned(s: Seq<char>, max: nat) -> Option<nat> {
    match unsigned_value(s) {
        Some(n) => if n <= max {
            Some(n)
        } else {
            None
        },
        None => None,
    }
}

/// A numeric setting: the default when the variable is absent, its value
/// when it parses, and `None` (an invalid setting) when it does not.
pub open spec fn setting_value(text: Option<Seq<char>>, max: nat, default: nat) -> Option<nat> {
    match text {
        Some(t) => parsed_unsigned(t, max),
        None => Some(default),
    }
}

/// The view of an optional numeric setting.
pub open spec fn opt_nat<T>(o: Option<T>, f: spec_fn(T) -> nat) -> Option<nat> {
    match o {
        Some(v) => Some(f(v)),
        None => None,
    }
}

/// The view of an optional string.
pub open spec fn opt_text(text: Option<&str>) -> Option<Seq<char>> {
    match text {
        Some(t) => Some(t@),
        None => None,
    }
}

/// Calls `str::parse::<u16>`, which accepts an optional `+` followed by
/// decimal digits whose value fits in 16 bits.
#[verifier::external_body]
fn parse_u16(s: &str) -> (r: Option<u16>)
    ensures
        match parsed_unsigned(s@, u16::MAX as nat) {
            Some(n) => r == Some(n as u16),
            None => r is None,
        },
{
    s.parse::<u16>().ok()
}

/// Calls `str::parse::<u32>`, which accepts an optional `+` followed by
/// decimal digits whose value fits in 32 bits.
#[verifier::external_body]
fn parse_u32(s: &str) -> (r: Option<u32>)
    ensures
        match parsed_unsigned(s@, u32::MAX as nat) {
            Some(n) => r == Some(n as u32),
            None => r is None,
        },
{
    s.parse::<u32>().ok()
}

/// Calls `str::parse::<u64>`, which accepts an optional `+` followed by
/// decimal digits whose value fits in 64 bits.
#[verifier::external_body]
fn parse_u64(s: &str) -> (r: Option<u64>)
    ensures
        match parsed_unsigned(s@, u64::MAX as nat) {
            Some(n) => r == Some(n as u64),
            None => r is None,
        },
{
    s.parse::<u64>().ok()
}

/// Calls `str::parse::<usize>`, which accepts an optional `+` followed by
/// decimal digits whose value fits in a `usize`.
#[verifier::external_body]
fn parse_usize(s: &str) -> (r: Option<usize>)
    ensures
        match parsed_unsigned(s@, usize::MAX as nat) {
            Some(n) => r == Some(n as usize),
            None => r is None,
        },
{
    s.parse::<usize>().ok()
}

/// The value of the text of a signed integer: an optional `+` or `-`
/// followed by one or more ASCII digits, and nothing else; `None` for
/// other text.
pub open spec fn signed_value(s: Seq<char>) -> Option<int> {
    let neg = s.len() > 0 && s[0] == '-';
    let d = if s.len() > 0 && (s[0] == '+' || s[0] == '-') {
        s.drop_first()
    } else {
        s
    };
    if d.len() > 0 && (forall|i: int| 0 <= i < d.len() ==> is_digit(#[trigger] d[i])) {
        Some(
            if neg {
                -digits_value(d)
            } else {
                digits_value(d) as int
            },
        )
    } else {
        None
    }
}

/// Calls `str::parse::<i64>`, which accepts an optional `+` or `-`
/// followed by decimal digits whose value fits in 64 signed bits.
#[verifier::external_body]
pub(crate) fn parse_i64(s: &str) -> (r: Option<i64>)
    ensures
        match signed_value(s@) {
            Some(n) => if i64::MIN <= n <= i64::MAX {
                r == Some(n as i64)
            } else {
                r is None
            },
            None => r is None,
        },
{
    s.parse::<i64>().ok()
}

/// A `u32` setting from the text of its variable, if set: the default
/// when it is not set, `None` when its text is not a valid `u32`.
pub fn u32_setting(text: Option<&str>, default: u32) -> (r: Option<u32>)
    ensures
        opt_nat(r, |v: u32| v as nat) == setting_value(opt_text(text), u32::MAX as nat, default as nat),
{
    match text {
        Some(t) => parse_u32(t),
        None => Some(default),
    }
}

/// A `u64` setting from the text of its variable, if set: the default
/// when it is not set, `None` when its text is not a valid `u64`.
pub fn u64_setting(text: Option<&str>, default: u64) -> (r: Option<u64>)
    ensures
        opt_nat(r, |v: u64| v as nat) == setting_value(opt_text(text), u64::MAX as nat, default as nat),
{
    match text {
        Some(t) => parse_u64(t),
        None => Some(default),
    }
}

/// A `usize` setting from the text of its variable, if set: the default
/// when it is not set, `None` when its text is not a valid `usize`.
pub fn usize_setting(text: Option<&str>, default: usize) -> (r: Option<usize>)
    ensures
        opt_nat(r, |v: usize| v as nat) == setting_value(opt_text(text), usize::MAX as nat, default as nat),
{
    match text {
        Some(t) => parse_usize(t),
        None => Some(default),
    }
}

/// The metrics port: 9090 when the variable is not set, otherwise its
/// value, which must parse as a `u16` (`None` when it does not).
pub fn metrics_port(text: Option<&str>) -> (r: Option<u16>)
    ensures
        text is None ==> r == Some(9090u16),
        text matches Some(t) ==> match parsed_unsigned(t@, u16::MAX as nat) {
            Some(n) => r == Some(n as u16),
            None => r is None,
        },
{
    match text {
        Some(t) => parse_u16(t),
        None => Some(9090),
    }
}

/// The prefix of the exchange credential variables: production
/// credentials in the `production` environment, testnet ones otherwise.
pub open spec fn credential_prefix(app_env: Seq<char>) -> Seq<char> {
    if app_env == "production"@ {
        "PROD"@
    } else {
        "TESTNET"@
    }
}

/// The name of the exchange variable `field` (such as `API_KEY`) in the
/// application environment `app_env`: `EXCHANGE_<prefix>_<field>`.
pub fn exchange_var(app_env: &str, field: &str) -> (r: String)
    ensures
        r@ == "EXCHANGE_"@ + credential_prefix(app_env@) + "_"@ + field@,
{
    let env = app_env.to_owned();
    let production = "production".to_owned();
    let mut name = "EXCHANGE_".to_owned();
    if env == production {
        name.append("PROD");
    } else {
        name.append("TESTNET");
    }
    name.append("_");
    name.append(field);
    name
}

} // verus!
