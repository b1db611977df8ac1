//! Monotonically increasing nonce generator.
//!
//! Authenticated exchange REST APIs require a nonce strictly greater than
//! the previous call's. The generator seeds its counter with the current
//! epoch in microseconds and advances it on every call; if the wall clock
//! overtakes the counter, the next call re-anchors to the wall clock. The
//! generator is taken by exclusive reference, so callers that share it
//! across tasks hold it behind a lock.

use std::time::{SystemTime, UNIX_EPOCH};
use vstd::prelude::*;

verus! {

/// Nonce generator; share one instance per exchange connection.
pub struct NonceGenerator {
    counter: u64,
}

impl View for NonceGenerator {
    type V = u64;

    /// The last nonce handed out (initially the seed).
    closed spec fn view(&self) -> u64 {
        self.counter
    }
}

/// Reads `SystemTime::now()` as whole microseconds since the Unix epoch;
/// `None` when the clock reads before the epoch. The reading depends on the
/// clock, so nothing is stated of it.
#[verifier::external_body]
fn system_micros_since_epoch() -> (r: Option<u128>) {
    SystemTime::now().duration_since(UNIX_EPOCH).ok().map(|d| d.as_micros())
}

/// The nonce handed out when the counter holds `counter` and the clock
/// reads `wall`: one above the later of the two (wrapping).
pub open spec fn nonce_after(counter: u64, wall: u64) -> u64 {
    let m = if counter >= wall {
        counter
    } else {
        wall
    };
    if m == u64::MAX {
        0
    } else {
        (m + 1) as u64
    }
}

/// A nonce is strictly greater than the counter before it and than the
/// clock reading, unless the 64-bit counter wraps to zero, which happens
/// only when one of them is `u64::MAX`.
pub proof fn law_nonce_strictly_increases(counter: u64, wall: u64)
    ensures
        nonce_after(counter, wall) != 0 ==> nonce_after(counter, wall) > counter
            && nonce_after(counter, wall) > wall,
        nonce_after(counter, wall) == 0 <==> (counter == u64::MAX || wall == u64::MAX),
{
}

impl NonceGenerator {
    /// A generator seeded at the current epoch in microseconds.
    pub fn new() -> (r: NonceGenerator) {
        Self::from_seed(Self::epoch_micros())
    }

    /// A generator whose counter starts at `seed`: its first nonce is
    /// above `seed` (unless the counter wraps).
    pub fn from_seed(seed: u64) -> (r: NonceGenerator)
        ensures
            r@ == seed,
    {
        NonceGenerator { counter: seed }
    }

    /// The next nonce: one above the later of the last nonce and the wall
    /// clock, which the counter then holds. Strictly greater than every
    /// nonce this generator handed out before, until the counter wraps.
    pub fn next(&mut self) -> (r: u64)
        ensures
            final(self)@ == r,
            exists|wall: u64| r == nonce_after(old(self)@, wall),
            r > old(self)@ || r == 0,
    {
        let wall = Self::epoch_micros();
        let r = Self::successor(self.counter, wall);
        proof {
            law_nonce_strictly_increases(self.counter, wall);
        }
        self.counter = r;
        assert(r == nonce_after(old(self)@, wall));
        r
    }

    /// The nonce after `counter` at clock reading `wall`.
    pub fn successor(counter: u64, wall: u64) -> (r: u64)
        ensures
            r == nonce_after(counter, wall),
    {
        let m = if counter >= wall {
            counter
        } else {
            wall
        };
        m.wrapping_add(1)
    }

    /// Current epoch in microseconds (0 before the epoch; truncated to 64
    /// bits).
    fn epoch_micros() -> u64 {
        match system_micros_since_epoch() {
            Some(us) => us as u64,
            None => 0,
        }
    }
}

impl Default for NonceGenerator {
    fn default() -> (r: NonceGenerator) {
        NonceGenerator::new()
    }
}

} // verus!
