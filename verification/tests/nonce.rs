use lehman_cousins_core::order_manager::nonce::NonceGenerator;
use std::time::{SystemTime, UNIX_EPOCH};

#[test]
fn nonces_are_strictly_increasing() {
    let mut gen = NonceGenerator::new();
    let mut prev = gen.next();
    for _ in 0..10_000 {
        let n = gen.next();
        assert!(n > prev, "nonce {n} <= previous {prev}");
        prev = n;
    }
}

#[test]
fn nonce_is_anchored_near_wall_clock() {
    let mut gen = NonceGenerator::new();
    let n = gen.next();
    let wall = SystemTime::now()
        .duration_since(UNIX_EPOCH)
        .unwrap()
        .as_micros() as u64;
    // Nonce should be within a 1-second window of now
    assert!(n <= wall + 1_000_000, "Nonce far ahead of wall clock");
    assert!(n >= wall - 1_000_000, "Nonce far behind wall clock");
}
