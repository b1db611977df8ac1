//! WebSocket feed ingestion: the decisions of the connection loop. The
//! caller owns the socket; it reports what happened and performs the action
//! returned here.

use vstd::prelude::*;
use crate::config::WebSocketConfig;
use crate::utils::retry::{pow2_saturating, two_saturating_pow};

verus! {

/// What to do after the stream failed.
#[derive(Clone, Copy, Debug, PartialEq, Eq, Structural)]
pub enum ReconnectAction {
    /// The maximum number of attempts is reached: give up with the error.
    GiveUp,
    /// Wait `delay_ms`, then connect again.
    Reconnect { delay_ms: u64 },
}

/// The exponent of the back-off after `attempt` failures: capped at 7.
pub open spec fn backoff_exponent(attempt: u32) -> nat {
    if attempt < 7 {
        attempt as nat
    } else {
        7
    }
}

/// The decision after the `attempt`-th consecutive failure of the stream
/// (counted from 1). A positive `max_reconnect_attempts` bounds the
/// attempts; zero means no bound. The delay doubles with each failure, up
/// to 2^7 times the base delay.
pub fn after_stream_error(config: &WebSocketConfig, attempt: u32) -> (r: ReconnectAction)
    requires
        !(config.max_reconnect_attempts > 0 && attempt >= config.max_reconnect_attempts)
            ==> config.reconnect_delay_ms * pow2_saturating(backoff_exponent(attempt)) <= u64::MAX,
    ensures
        config.max_reconnect_attempts > 0 && attempt >= config.max_reconnect_attempts ==> r
            == ReconnectAction::GiveUp,
        !(config.max_reconnect_attempts > 0 && attempt >= config.max_reconnect_attempts) ==> r
            == (ReconnectAction::Reconnect {
            delay_ms: (config.reconnect_delay_ms * pow2_saturating(backoff_exponent(attempt))) as u64,
        }),
{
    let max = config.max_reconnect_attempts;
    if max > 0 && attempt >= max {
        return ReconnectAction::GiveUp;
    }
    let exponent = if attempt < 7 {
        attempt
    } else {
        7
    };
    ReconnectAction::Reconnect {
        delay_ms: config.reconnect_delay_ms * two_saturating_pow(exponent),
    }
}

/// What happened on a live connection.
#[derive(Clone, Copy, Debug, PartialEq, Eq, Structural)]
pub enum FeedInput {
    /// The ping timer fired; the last pong (or ping) from the exchange was
    /// received this many nanoseconds ago.
    PingTick { since_last_pong_nanos: u128 },
    /// Sending a ping frame failed.
    PingSendFailed,
    /// A text frame arrived.
    Text,
    /// A pong frame arrived.
    Pong,
    /// A ping frame from the exchange arrived.
    Ping,
    /// A close frame arrived.
    Close,
    /// Reading from the socket failed.
    ReadError,
    /// The stream ended.
    StreamEnd,
    /// Any other frame.
    Other,
}

/// What the connection loop does next.
#[derive(Clone, Copy, Debug, PartialEq, Eq, Structural)]
pub enum FeedAction {
    /// Send a ping frame.
    SendPing,
    /// Leave the loop: the connection is considered dead.
    Disconnect,
    /// The exchange is alive: restart the heartbeat timeout.
    RecordPong,
    /// Nothing to do.
    Continue,
}

/// The heartbeat timeout: twice the ping interval, in nanoseconds.
pub open spec fn heartbeat_timeout_nanos(ping_interval_seconds: u64) -> int {
    ping_interval_seconds * 2 * 1_000_000_000
}

/// The decision on one input. On a ping tick the connection is dropped if
/// nothing was heard for more than twice the ping interval, and pinged
/// otherwise; pongs and pings from the exchange restart the timeout; close
/// frames, read errors, the end of the stream and failed pings end the
/// connection.
pub fn on_feed_input(ping_interval_seconds: u64, input: FeedInput) -> (r: FeedAction)
    requires
        ping_interval_seconds * 2 <= u64::MAX,
    ensures
        r == match input {
            FeedInput::PingTick { since_last_pong_nanos } => if since_last_pong_nanos
                > heartbeat_timeout_nanos(ping_interval_seconds) {
                FeedAction::Disconnect
            } else {
                FeedAction::SendPing
            },
            FeedInput::PingSendFailed => FeedAction::Disconnect,
            FeedInput::Text => FeedAction::Continue,
            FeedInput::Pong => FeedAction::RecordPong,
            FeedInput::Ping => FeedAction::RecordPong,
            FeedInput::Close => FeedAction::Disconnect,
            FeedInput::ReadError => FeedAction::Disconnect,
            FeedInput::StreamEnd => FeedAction::Disconnect,
            FeedInput::Other => FeedAction::Continue,
        },
{
    match input {
        FeedInput::PingTick { since_last_pong_nanos } => {
            let timeout_nanos: u128 = (ping_interval_seconds as u128) * 2 * 1_000_000_000;
            if since_last_pong_nanos > timeout_nanos {
                FeedAction::Disconnect
            } else {
                FeedAction::SendPing
            }
        },
        FeedInput::PingSendFailed => FeedAction::Disconnect,
        FeedInput::Text => FeedAction::Continue,
        FeedInput::Pong | FeedInput::Ping => FeedAction::RecordPong,
        FeedInput::Close | FeedInput::ReadError | FeedInput::StreamEnd => FeedAction::Disconnect,
        FeedInput::Other => FeedAction::Continue,
    }
}

} // verus!
