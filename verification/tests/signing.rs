use lehman_cousins_core::domain::decimal::Decimal;
use lehman_cousins_core::domain::feed_state::{FeedState, SyncError};
use lehman_cousins_core::domain::models::{Order, OrderStatus, OrderType, Side, Timestamp};
use lehman_cousins_core::exchange_clients::bybit::{generate_signature, market_frame_is_valid, order_payload, RECV_WINDOW};
use lehman_cousins_core::telemetry::alert_payload;

fn order(side: Side, price: Option<Decimal>) -> Order {
    let t = Timestamp { secs: 0, nanos: 0 };
    Order {
        client_id: 7,
        exchange_id: None,
        symbol: "BTCUSDT".to_string(),
        side,
        order_type: OrderType::Limit,
        price,
        quantity: Decimal::new(15, 1),
        filled_quantity: Decimal::zero(),
        status: OrderStatus::Pending,
        created_at: t,
        updated_at: t,
    }
}

#[test]
fn signature_is_hex_hmac_sha256_of_the_prehash() {
    let sig = generate_signature(1672531200000, "key", "secret", "{\"a\":1}");
    assert_eq!(sig, "39a832bc8b417880ac5e652037f9a951ef9d2b377ab68650cb66fa96337fe83e");
    assert_eq!(RECV_WINDOW, "5000");
}

#[test]
fn signature_depends_on_secret_and_payload() {
    let a = generate_signature(1, "k", "s1", "p");
    let b = generate_signature(1, "k", "s2", "p");
    let c = generate_signature(1, "k", "s1", "q");
    assert_eq!(a.len(), 64);
    assert_ne!(a, b);
    assert_ne!(a, c);
}

#[test]
fn spot_payload_layout() {
    let buy = order_payload(&order(Side::Buy, Some(Decimal::new(650021, 1))));
    assert_eq!(
        buy,
        "{\"category\":\"spot\",\"symbol\":\"BTCUSDT\",\"side\":\"Buy\",\"orderType\":\"Limit\",\"qty\":\"1.5\",\"price\":\"65002.1\"}"
    );
    let sell = order_payload(&order(Side::Sell, None));
    assert_eq!(
        sell,
        "{\"category\":\"spot\",\"symbol\":\"BTCUSDT\",\"side\":\"Sell\",\"orderType\":\"Limit\",\"qty\":\"1.5\",\"price\":\"0\"}"
    );
}

#[test]
fn feed_state_text_and_predicates() {
    assert_eq!(FeedState::Pending.to_string(), "Pending");
    assert_eq!(FeedState::Buffering.to_string(), "Buffering");
    assert_eq!(FeedState::Syncing { snapshot_seq: 100 }.to_string(), "Syncing(snapshot_seq=100)");
    assert_eq!(FeedState::Live.to_string(), "Live");
    assert!(FeedState::Live.is_live());
    assert!(!FeedState::Syncing { snapshot_seq: 1 }.is_live());
    assert!(FeedState::Syncing { snapshot_seq: 1 }.is_connected());
    assert!(!FeedState::Pending.is_connected());
}

#[test]
fn sync_errors_read_as_messages() {
    assert_eq!(
        SyncError::SequenceGap { snapshot_seq: 100, oldest_delta_seq: 150 }.to_string(),
        "Sequence gap: snapshot_seq=100 < oldest_delta_seq=150"
    );
    assert_eq!(SyncError::BufferOverflow { capacity: 2048 }.to_string(), "Delta buffer overflow (capacity=2048)");
    assert_eq!(
        SyncError::StaleSnapshot { expected: 1, got: 0 }.to_string(),
        "Stale REST snapshot (generation mismatch: expected=1, got=0)"
    );
    assert_eq!(
        SyncError::InvalidTransition { from: "Live".into(), to: "Buffering".into() }.to_string(),
        "Invalid transition: cannot go from Live to Buffering"
    );
}

#[test]
fn alert_body_layout() {
    let body = alert_payload("Drawdown", "limit hit");
    assert_eq!(body, r#"{"content": "**[OPS FATAL] Drawdown**\nlimit hit"}"#);
}

#[test]
fn market_frames_must_parse_as_json() {
    assert!(market_frame_is_valid(b"{\"topic\":\"orderbook.50.BTCUSDT\",\"ts\":1}".to_vec()));
    assert!(!market_frame_is_valid(b"{\"topic\":".to_vec()));
    assert!(!market_frame_is_valid(b"not json".to_vec()));
}
