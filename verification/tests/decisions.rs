use lehman_cousins_core::config::WebSocketConfig;
use lehman_cousins_core::exchange_clients::websocket_client::{
    after_stream_error, on_feed_input, FeedAction, FeedInput, ReconnectAction,
};
use lehman_cousins_core::utils::retry::{backoff_delay_ms, retry_step, two_saturating_pow, RetryAction};
use lehman_cousins_core::utils::time::{epoch_ms, from_epoch_ms, now};

fn ws(max_attempts: u32) -> WebSocketConfig {
    WebSocketConfig {
        reconnect_delay_ms: 100,
        max_reconnect_attempts: max_attempts,
        ping_interval_seconds: 20,
        message_buffer_size: 1024,
    }
}

#[test]
fn reconnect_backoff_doubles_and_caps() {
    let c = ws(10);
    assert_eq!(after_stream_error(&c, 1), ReconnectAction::Reconnect { delay_ms: 200 });
    assert_eq!(after_stream_error(&c, 3), ReconnectAction::Reconnect { delay_ms: 800 });
    assert_eq!(after_stream_error(&c, 7), ReconnectAction::Reconnect { delay_ms: 12_800 });
    assert_eq!(after_stream_error(&c, 9), ReconnectAction::Reconnect { delay_ms: 12_800 });
    assert_eq!(after_stream_error(&c, 10), ReconnectAction::GiveUp);
    // Zero attempts configured means no bound.
    assert_eq!(after_stream_error(&ws(0), 1000), ReconnectAction::Reconnect { delay_ms: 12_800 });
}

#[test]
fn heartbeat_decisions() {
    let timeout: u128 = 40 * 1_000_000_000;
    assert_eq!(on_feed_input(20, FeedInput::PingTick { since_last_pong_nanos: timeout }), FeedAction::SendPing);
    assert_eq!(
        on_feed_input(20, FeedInput::PingTick { since_last_pong_nanos: timeout + 1 }),
        FeedAction::Disconnect
    );
    assert_eq!(on_feed_input(20, FeedInput::Pong), FeedAction::RecordPong);
    assert_eq!(on_feed_input(20, FeedInput::Ping), FeedAction::RecordPong);
    assert_eq!(on_feed_input(20, FeedInput::Text), FeedAction::Continue);
    assert_eq!(on_feed_input(20, FeedInput::Other), FeedAction::Continue);
    assert_eq!(on_feed_input(20, FeedInput::Close), FeedAction::Disconnect);
    assert_eq!(on_feed_input(20, FeedInput::ReadError), FeedAction::Disconnect);
    assert_eq!(on_feed_input(20, FeedInput::StreamEnd), FeedAction::Disconnect);
    assert_eq!(on_feed_input(20, FeedInput::PingSendFailed), FeedAction::Disconnect);
}

#[test]
fn retry_waits_grow_exponentially() {
    assert_eq!(two_saturating_pow(0), 1);
    assert_eq!(two_saturating_pow(10), 1024);
    assert_eq!(two_saturating_pow(64), u64::MAX);
    assert_eq!(backoff_delay_ms(50, 3), 400);
    assert_eq!(retry_step(3, 50, 0, true), RetryAction::Return);
    assert_eq!(retry_step(3, 50, 0, false), RetryAction::RetryAfter { delay_ms: 50 });
    assert_eq!(retry_step(3, 50, 1, false), RetryAction::RetryAfter { delay_ms: 100 });
    assert_eq!(retry_step(3, 50, 2, false), RetryAction::GiveUpAfter { delay_ms: 200 });
}

#[test]
fn epoch_millisecond_conversions() {
    let t = from_epoch_ms(1_672_531_200_123);
    assert_eq!(t.secs, 1_672_531_200);
    assert_eq!(t.nanos, 123_000_000);
    let before = from_epoch_ms(-1);
    assert_eq!(before.secs, -1);
    assert_eq!(before.nanos, 999_000_000);
    let out_of_range = from_epoch_ms(i64::MAX);
    assert_eq!(out_of_range.secs, 0);
    assert_eq!(out_of_range.nanos, 0);
    assert!(epoch_ms() > 1_672_531_200_000);
    assert!(now().secs > 1_672_531_200);
    assert!(now().nanos < 1_000_000_000);
}
