//! Bybit V5 (spot) request construction: the order payload and the
//! HMAC-SHA256 request signature. Sending is the caller's job.

use hmac::Mac;
use vstd::prelude::*;
use vstd::string::StringExecFns;
use vstd::utf8::encode_utf8;

use crate::domain::decimal::{Decimal, decimal_text};
use crate::domain::feed_state::{decimal_digits, u64_to_string};
use crate::domain::models::{Order, Side};

verus! {

/// The receive window sent with every signed request, in milliseconds.
pub const RECV_WINDOW: &'static str = "5000";

/// HMAC-SHA256 of `msg` under `key`, as computed by the `hmac` and `sha2`
/// crates.
pub uninterp spec fn hmac_sha256(key: Seq<u8>, msg: Seq<u8>) -> Seq<u8>;

/// Computes HMAC-SHA256 with `Hmac::<Sha256>::new_from_slice` (which
/// accepts keys of any length), `update` and `finalize`. The result is
/// named; it is 32 bytes long.
#[verifier::external_body]
fn hmac_sha256_bytes(key: &[u8], msg: &[u8]) -> (r: Vec<u8>)
    ensures
        r@ == hmac_sha256(key@, msg@),
        r@.len() == 32,
{
    let mut mac = hmac::Hmac::<sha2::Sha256>::new_from_slice(key).expect("HMAC accepts keys of any size");
    mac.update(msg);
    mac.finalize().into_bytes().to_vec()
}

/// The lower-case hexadecimal digit of a nibble.
pub open spec fn hex_digit(n: int) -> char {
    if n < 10 {
        ((n + 48) as u8) as char
    } else {
        ((n + 87) as u8) as char
    }
}

/// Two lower-case hexadecimal digits per byte, most significant first.
pub open spec fn hex_lower(bytes: Seq<u8>) -> Seq<char>
    decreases bytes.len(),
{
    if bytes.len() == 0 {
        seq![]
    } else {
        seq![hex_digit(bytes[0] as int / 16), hex_digit(bytes[0] as int % 16)] + hex_lower(bytes.drop_first())
    }
}

/// Two hex digits per byte.
pub proof fn lemma_hex_lower_len(bytes: Seq<u8>)
    ensures
        hex_lower(bytes).len() == 2 * bytes.len(),
    decreases bytes.len(),
{
    if bytes.len() > 0 {
        lemma_hex_lower_len(bytes.drop_first());
    }
}

/// Calls `hex::encode`: two lower-case hexadecimal digits per byte.
#[verifier::external_body]
fn hex_encode(bytes: &[u8]) -> (r: String)
    ensures
        r@ == hex_lower(bytes@),
{
    hex::encode(bytes)
}

/// The text that is signed: timestamp, API key, receive window, payload.
pub open spec fn signature_text(timestamp: u64, api_key: Seq<char>, payload: Seq<char>) -> Seq<char> {
    decimal_digits(timestamp as nat) + api_key + "5000"@ + payload
}

/// The request signature: hex(HMAC-SHA256(secret, timestamp ‖ api key ‖
/// receive window ‖ payload)).
pub fn generate_signature(timestamp: u64, api_key: &str, api_secret: &str, payload: &str) -> (r:
    String)
    ensures
        r@ == hex_lower(
            hmac_sha256(encode_utf8(api_secret@), encode_utf8(signature_text(timestamp, api_key@, payload@))),
        ),
        r@.len() == 64,
{
    let mut text = u64_to_string(timestamp);
    text.append(api_key);
    text.append(RECV_WINDOW);
    text.append(payload);
    let mac = hmac_sha256_bytes(api_secret.as_bytes(), text.as_str().as_bytes());
    proof {
        lemma_hex_lower_len(mac@);
    }
    hex_encode(mac.as_slice())
}

/// The JSON payload of a spot limit order.
pub open spec fn order_payload_text(order: Order) -> Seq<char> {
    let price = match order.price {
        Some(p) => p@,
        None => (0int, 0nat),
    };
    "{\"category\":\"spot\",\"symbol\":\""@ + order.symbol@ + "\",\"side\":\""@ + (match order.side {
        Side::Buy => "Buy"@,
        Side::Sell => "Sell"@,
    }) + "\",\"orderType\":\"Limit\",\"qty\":\""@ + decimal_text(order.quantity@.0, order.quantity@.1)
        + "\",\"price\":\""@ + decimal_text(price.0, price.1) + "\"}"@
}

/// The JSON body of an order creation request (spot category, limit
/// order type; a missing price is sent as 0).
pub fn order_payload(order: &Order) -> (r: String)
    ensures
        r@ == order_payload_text(*order),
{
    let mut s = "{\"category\":\"spot\",\"symbol\":\"".to_owned();
    s.append(order.symbol.as_str());
    s.append("\",\"side\":\"");
    match order.side {
        Side::Buy => s.append("Buy"),
        Side::Sell => s.append("Sell"),
    }
    s.append("\",\"orderType\":\"Limit\",\"qty\":\"");
    let qty = order.quantity.to_string();
    s.append(qty.as_str());
    s.append("\",\"price\":\"");
    let price = match order.price {
        Some(p) => p,
        None => Decimal::zero(),
    };
    let p = price.to_string();
    s.append(p.as_str());
    s.append("\"}");
    s
}

/// Whether `simd_json::to_borrowed_value` parses `bytes` as a JSON
/// document.
pub uninterp spec fn json_accepts(bytes: Seq<u8>) -> bool;

/// Calls `simd_json::to_borrowed_value` on the bytes (which it rewrites in
/// place) and reports whether they parse.
#[verifier::external_body]
fn simd_json_accepts(bytes: Vec<u8>) -> (r: bool)
    ensures
        r == json_accepts(bytes@),
{
    let mut b = bytes;
    let ok = simd_json::to_borrowed_value(&mut b).is_ok();
    ok
}

/// A text frame of the market-data stream is well formed: its payload
/// parses as JSON.
pub fn market_frame_is_valid(payload: Vec<u8>) -> (r: bool)
    ensures
        r == json_accepts(payload@),
{
    simd_json_accepts(payload)
}

} // verus!
