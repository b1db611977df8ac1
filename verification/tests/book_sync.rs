use lehman_cousins_core::domain::decimal::Decimal;
use lehman_cousins_core::domain::feed_state::{FeedState, SyncError};
use lehman_cousins_core::domain::models::{OrderBookUpdate, PriceLevel};
use lehman_cousins_core::exchange_clients::book_sync::{BookSynchronizer, MAX_BUFFER_CAPACITY};
use lehman_cousins_core::utils::time::now;

fn update(seq: u64) -> OrderBookUpdate {
    OrderBookUpdate {
        symbol: "BTC-USDT".into(),
        bids: vec![PriceLevel { price: Decimal::new(29_000, 0), quantity: Decimal::new(1, 0) }],
        asks: vec![PriceLevel { price: Decimal::new(29_010, 0), quantity: Decimal::new(1, 0) }],
        sequence: seq,
        timestamp: now(),
    }
}

fn synced_book() -> BookSynchronizer {
    let (mut sync, _rx) = BookSynchronizer::new("BTC-USDT");
    sync.on_ws_connected().unwrap();
    for seq in 95..=102 {
        sync.push_delta(update(seq)).unwrap();
    }
    let gen = sync.generation();
    sync.on_snapshot_received(update(100), gen).unwrap();
    sync
}

#[test]
fn pending_blocks_on_ws_open() {
    let (mut sync, rx) = BookSynchronizer::new("BTC-USDT");
    assert_eq!(sync.state(), FeedState::Pending);
    assert!(!rx.borrow().is_live());

    sync.on_ws_connected().unwrap();
    assert_eq!(sync.state(), FeedState::Buffering);
    assert!(!rx.borrow().is_live());
}

#[test]
fn buffering_does_not_apply_deltas() {
    let (mut sync, _rx) = BookSynchronizer::new("BTC-USDT");
    sync.on_ws_connected().unwrap();

    sync.push_delta(update(1)).unwrap();
    sync.push_delta(update(2)).unwrap();

    assert_eq!(sync.book().sequence(), 0);
    assert_eq!(sync.buffer_len(), 2);
}

#[test]
fn syncing_drains_stale_deltas() {
    let (mut sync, _rx) = BookSynchronizer::new("BTC-USDT");
    sync.on_ws_connected().unwrap();

    for seq in 95..=105 {
        sync.push_delta(update(seq)).unwrap();
    }

    let gen = sync.generation();
    sync.on_snapshot_received(update(100), gen).unwrap();

    assert_eq!(sync.book().sequence(), 105);
    assert_eq!(sync.buffer_len(), 0);
}

#[test]
fn live_after_clean_buffer() {
    let sync = synced_book();
    assert!(sync.is_live());
    assert_eq!(sync.state(), FeedState::Live);
}

#[test]
fn disconnect_resets_to_pending() {
    let (mut sync, rx) = BookSynchronizer::new("BTC-USDT");
    sync.on_ws_connected().unwrap();

    let gen_before = sync.generation();
    sync.on_ws_disconnected();

    assert_eq!(sync.state(), FeedState::Pending);
    assert!(!rx.borrow().is_live());
    assert_eq!(sync.buffer_len(), 0);
    assert_eq!(sync.book().sequence(), 0);
    assert_eq!(sync.generation(), gen_before + 1);
}

#[test]
fn sequence_gap_detected_aborts_to_pending() {
    let (mut sync, _rx) = BookSynchronizer::new("BTC-USDT");
    sync.on_ws_connected().unwrap();

    for seq in 150..=155 {
        sync.push_delta(update(seq)).unwrap();
    }

    let gen = sync.generation();
    let result = sync.on_snapshot_received(update(100), gen);

    assert!(matches!(result, Err(SyncError::SequenceGap {
        snapshot_seq: 100,
        oldest_delta_seq: 150,
    })));
    assert_eq!(sync.state(), FeedState::Pending);
    assert_eq!(sync.buffer_len(), 0);
}

#[test]
fn buffer_overflow_aborts_to_pending() {
    let (mut sync, _rx) = BookSynchronizer::new("BTC-USDT");
    sync.on_ws_connected().unwrap();

    for seq in 0..MAX_BUFFER_CAPACITY as u64 {
        sync.push_delta(update(seq)).unwrap();
    }
    assert_eq!(sync.buffer_len(), MAX_BUFFER_CAPACITY);

    let result = sync.push_delta(update(MAX_BUFFER_CAPACITY as u64));

    assert!(matches!(result, Err(SyncError::BufferOverflow { .. })));
    assert_eq!(sync.state(), FeedState::Pending);
    assert_eq!(sync.buffer_len(), 0);
}

#[test]
fn stale_snapshot_discarded_after_disconnect() {
    let (mut sync, _rx) = BookSynchronizer::new("BTC-USDT");
    sync.on_ws_connected().unwrap();
    sync.push_delta(update(1)).unwrap();

    let stale_gen = sync.generation();

    sync.on_ws_disconnected();
    assert_eq!(sync.generation(), stale_gen + 1);

    let result = sync.on_snapshot_received(update(1), stale_gen);

    assert!(matches!(result, Err(SyncError::StaleSnapshot { .. })));
    assert_eq!(sync.state(), FeedState::Pending);
}

#[test]
fn state_broadcast_reaches_receiver() {
    let (mut sync, rx) = BookSynchronizer::new("BTC-USDT");
    sync.on_ws_connected().unwrap();
    sync.push_delta(update(100)).unwrap();
    sync.push_delta(update(101)).unwrap();
    let gen = sync.generation();
    sync.on_snapshot_received(update(100), gen).unwrap();
    assert!(rx.borrow().is_live());
    assert_eq!(sync.book().sequence(), 101);
}

#[test]
fn invalid_transitions_are_reported() {
    let (mut sync, _rx) = BookSynchronizer::new("BTC-USDT");
    sync.on_ws_connected().unwrap();
    match sync.on_ws_connected() {
        Err(SyncError::InvalidTransition { from, to }) => {
            assert_eq!(from, "Buffering");
            assert_eq!(to, "Buffering");
        }
        other => panic!("unexpected {:?}", other),
    }
    let mut live = synced_book();
    let gen = live.generation();
    match live.on_snapshot_received(update(200), gen) {
        Err(SyncError::InvalidTransition { from, to }) => {
            assert_eq!(from, "Live");
            assert_eq!(to, "Syncing");
        }
        other => panic!("unexpected {:?}", other),
    }
    // Deltas pushed while live reach the book directly.
    live.push_delta(update(300)).unwrap();
    assert_eq!(live.book().sequence(), 300);
    // Deltas pushed while pending are dropped.
    let (mut pending, _rx2) = BookSynchronizer::new("BTC-USDT");
    pending.push_delta(update(7)).unwrap();
    assert_eq!(pending.buffer_len(), 0);
    assert_eq!(pending.book().sequence(), 0);
}

#[test]
fn receiver_reads_every_transition() {
    let (mut sync, rx) = BookSynchronizer::new("BTC-USDT");
    assert_eq!(*rx.borrow(), FeedState::Pending);
    sync.on_ws_connected().unwrap();
    assert_eq!(*rx.borrow(), FeedState::Buffering);
    sync.push_delta(update(150)).unwrap();
    let gen = sync.generation();
    assert!(sync.on_snapshot_received(update(100), gen).is_err());
    assert_eq!(*rx.borrow(), FeedState::Pending);
    sync.on_ws_connected().unwrap();
    let gen = sync.generation();
    sync.on_snapshot_received(update(100), gen).unwrap();
    assert_eq!(*rx.borrow(), FeedState::Live);
    sync.on_ws_disconnected();
    assert_eq!(*rx.borrow(), FeedState::Pending);
}

#[test]
fn slot_holds_state_after_receivers_are_gone() {
    let (mut sync, rx) = BookSynchronizer::new("BTC-USDT");
    drop(rx);
    sync.on_ws_connected().unwrap();
    assert!(!sync.is_live());
}
