//! Order book feed state machine.
//!
//! Every exchange feed connection follows this lifecycle before its data is
//! trusted by the trading engine:
//!
//! ```text
//! Pending ──on_ws_connected()──► Buffering ──on_snapshot_received()──► Syncing ──(drain)──► Live
//!   ▲                                │                                                         │
//!   └──────────── on_ws_disconnected() / buffer overflow / sequence gap ────────────────────────┘
//! ```

use vstd::prelude::*;
use vstd::string::StringExecFns;

verus! {

/// The observable states of an exchange feed connection.
#[derive(Clone, Copy, Debug, PartialEq, Eq, Structural)]
pub enum FeedState {
    /// Initial state and post-disconnect recovery state.
    /// All order submissions are blocked while in this state.
    Pending,
    /// WebSocket is connected. Incoming deltas are buffered but not applied.
    /// A REST snapshot request is in flight.
    Buffering,
    /// REST snapshot has been received; the delta buffer is being drained.
    Syncing { snapshot_seq: u64 },
    /// Book is fully synchronised. Strategies may trade.
    Live,
}

/// The decimal digits of `n`.
pub open spec fn decimal_digits(n: nat) -> Seq<char>
    decreases n,
{
    if n < 10 {
        seq![digit_char(n)]
    } else {
        decimal_digits(n / 10).push(digit_char(n % 10))
    }
}

/// The character of a decimal digit.
pub open spec fn digit_char(d: nat) -> char {
    if d == 0 {
        '0'
    } else if d == 1 {
        '1'
    } else if d == 2 {
        '2'
    } else if d == 3 {
        '3'
    } else if d == 4 {
        '4'
    } else if d == 5 {
        '5'
    } else if d == 6 {
        '6'
    } else if d == 7 {
        '7'
    } else if d == 8 {
        '8'
    } else {
        '9'
    }
}

/// The text a feed state displays as.
pub open spec fn feed_state_text(s: FeedState) -> Seq<char> {
    match s {
        FeedState::Pending => "Pending"@,
        FeedState::Buffering => "Buffering"@,
        FeedState::Syncing { snapshot_seq } => "Syncing(snapshot_seq="@ + decimal_digits(
            snapshot_seq as nat,
        ) + ")"@,
        FeedState::Live => "Live"@,
    }
}

/// Calls `<u64 as ToString>::to_string`: the decimal digits of `n`.
#[verifier::external_body]
pub(crate) fn u64_to_string(n: u64) -> (r: String)
    ensures
        r@ == decimal_digits(n as nat),
{
    n.to_string()
}

impl FeedState {
    /// Returns `true` only when the book can be trusted for strategy use.
    pub fn is_live(&self) -> (r: bool)
        ensures
            r == (*self is Live),
    {
        match self {
            FeedState::Live => true,
            _ => false,
        }
    }

    /// Returns `true` if the feed is actively collecting deltas.
    pub fn is_connected(&self) -> (r: bool)
        ensures
            r == (*self is Buffering || *self is Syncing || *self is Live),
    {
        match self {
            FeedState::Buffering | FeedState::Syncing { .. } | FeedState::Live => true,
            FeedState::Pending => false,
        }
    }

    /// The display text of the state, e.g. `Syncing(snapshot_seq=100)`.
    pub fn to_string(&self) -> (r: String)
        ensures
            r@ == feed_state_text(*self),
    {
        match self {
            FeedState::Pending => "Pending".to_owned(),
            FeedState::Buffering => "Buffering".to_owned(),
            FeedState::Syncing { snapshot_seq } => {
                let mut s = "Syncing(snapshot_seq=".to_owned();
                let digits = u64_to_string(*snapshot_seq);
                s.append(digits.as_str());
                s.append(")");
                s
            },
            FeedState::Live => "Live".to_owned(),
        }
    }
}

/// Errors that cause the state machine to abort (or refuse a transition).
#[derive(Debug)]
pub enum SyncError {
    /// The REST snapshot is older than the oldest buffered delta.
    SequenceGap { snapshot_seq: u64, oldest_delta_seq: u64 },
    /// The delta buffer exceeded its capacity.
    BufferOverflow { capacity: usize },
    /// A REST snapshot arrived but the generation no longer matches.
    StaleSnapshot { expected: u64, got: u64 },
    /// Invalid state transition attempted.
    InvalidTransition { from: String, to: String },
}

/// The message of a sync error.
pub open spec fn sync_error_text(e: SyncError) -> Seq<char> {
    match e {
        SyncError::SequenceGap { snapshot_seq, oldest_delta_seq } => "Sequence gap: snapshot_seq="@
            + decimal_digits(snapshot_seq as nat) + " < oldest_delta_seq="@ + decimal_digits(
            oldest_delta_seq as nat,
        ),
        SyncError::BufferOverflow { capacity } => "Delta buffer overflow (capacity="@
            + decimal_digits(capacity as nat) + ")"@,
        SyncError::StaleSnapshot { expected, got } =>
            "Stale REST snapshot (generation mismatch: expected="@ + decimal_digits(expected as nat)
            + ", got="@ + decimal_digits(got as nat) + ")"@,
        SyncError::InvalidTransition { from, to } => "Invalid transition: cannot go from "@ + from@
            + " to "@ + to@,
    }
}

impl SyncError {
    /// The error's message, e.g. `Delta buffer overflow (capacity=2048)`.
    pub fn to_string(&self) -> (r: String)
        ensures
            r@ == sync_error_text(*self),
    {
        match self {
            SyncError::SequenceGap { snapshot_seq, oldest_delta_seq } => {
                let mut s = "Sequence gap: snapshot_seq=".to_owned();
                s.append(u64_to_string(*snapshot_seq).as_str());
                s.append(" < oldest_delta_seq=");
                s.append(u64_to_string(*oldest_delta_seq).as_str());
                s
            },
            SyncError::BufferOverflow { capacity } => {
                let mut s = "Delta buffer overflow (capacity=".to_owned();
                s.append(u64_to_string(*capacity as u64).as_str());
                s.append(")");
                s
            },
            SyncError::StaleSnapshot { expected, got } => {
                let mut s = "Stale REST snapshot (generation mismatch: expected=".to_owned();
                s.append(u64_to_string(*expected).as_str());
                s.append(", got=");
                s.append(u64_to_string(*got).as_str());
                s.append(")");
                s
            },
            SyncError::InvalidTransition { from, to } => {
                let mut s = "Invalid transition: cannot go from ".to_owned();
                s.append(from.as_str());
                s.append(" to ");
                s.append(to.as_str());
                s
            },
        }
    }
}

} // verus!
