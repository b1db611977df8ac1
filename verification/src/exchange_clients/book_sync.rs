//! Order book snapshot + delta synchronisation.
//!
//! [`BookSynchronizer`] owns the full sync lifecycle for a single trading
//! pair and guards against the three critical failure modes:
//!
//! | Failure mode | Guard | Recovery |
//! |---|---|---|
//! | Sequence gap | `snapshot_seq < oldest_delta_seq` | abort → `Pending` |
//! | Buffer overflow | `buffer.len() >= MAX_BUFFER_CAPACITY` | abort → `Pending` |
//! | Stale snapshot | `generation` counter mismatch | discard |

use std::collections::VecDeque;
use tokio::sync::watch::{Receiver, Sender};
use vstd::prelude::*;

use crate::domain::feed_state::{FeedState, SyncError, feed_state_text};
use crate::domain::models::OrderBookUpdate;
use crate::domain::orderbook::{BookModel, BookState, OrderBook, apply_update, book_state};

verus! {

/// Hard cap on the delta buffer size.
pub const MAX_BUFFER_CAPACITY: usize = 2048;

#[verifier::external_type_specification]
#[verifier::external_body]
#[verifier::reject_recursive_types(T)]
pub struct ExWatchSender<T>(Sender<T>);

#[verifier::external_type_specification]
#[verifier::external_body]
#[verifier::reject_recursive_types(T)]
pub struct ExWatchReceiver<T>(Receiver<T>);

/// The value the watch channel of a sender holds: what its receivers read
/// next.
pub uninterp spec fn watch_slot(tx: Sender<FeedState>) -> FeedState;

/// Calls `tokio::sync::watch::channel`: a sender and a receiver sharing one
/// slot that starts out holding `init`.
#[verifier::external_body]
fn watch_channel(init: FeedState) -> (r: (Sender<FeedState>, Receiver<FeedState>))
    ensures
        watch_slot(r.0) == init,
{
    tokio::sync::watch::channel(init)
}

/// Calls `tokio::sync::watch::Sender::send_replace`: the slot holds `value`
/// afterwards, whether or not a receiver is left (the value it replaces is
/// dropped). The synchronizer owns its sender alone, so only these calls
/// change the slot.
#[verifier::external_body]
fn watch_send(tx: &mut Sender<FeedState>, value: FeedState)
    ensures
        watch_slot(*final(tx)) == value,
{
    tx.send_replace(value);
}

/// The abstract state of a synchronizer.
pub struct SyncModel {
    pub symbol: Seq<char>,
    pub book: BookModel,
    pub state: FeedState,
    /// Buffered deltas, oldest first.
    pub buffer: Seq<OrderBookUpdate>,
    pub generation: u64,
    /// The state last broadcast: what the receivers read.
    pub broadcast: FeedState,
}

/// Draining applies the buffered deltas oldest first: a delta pushed
/// after the others takes effect after all of them (when it is newer than
/// the snapshot), and the oldest delta takes effect before all the others.
pub proof fn law_drain_applies_in_arrival_order(
    s: BookState,
    deltas: Seq<OrderBookUpdate>,
    d: OrderBookUpdate,
    snapshot_seq: u64,
)
    ensures
        drain_deltas(s, deltas.push(d), snapshot_seq) == (if d.sequence > snapshot_seq {
            apply_update(drain_deltas(s, deltas, snapshot_seq), d)
        } else {
            drain_deltas(s, deltas, snapshot_seq)
        }),
        drain_deltas(s, seq![d] + deltas, snapshot_seq) == drain_deltas(
            if d.sequence > snapshot_seq {
                apply_update(s, d)
            } else {
                s
            },
            deltas,
            snapshot_seq,
        ),
    decreases deltas.len(),
{
    assert(deltas.push(d).drop_last() =~= deltas);
    let t = seq![d] + deltas;
    let s2 = if d.sequence > snapshot_seq {
        apply_update(s, d)
    } else {
        s
    };
    if deltas.len() > 0 {
        assert(t.drop_last() =~= seq![d] + deltas.drop_last());
        assert(t.last() == deltas.last());
        law_drain_applies_in_arrival_order(s, deltas.drop_last(), d, snapshot_seq);
        assert(drain_deltas(s, t.drop_last(), snapshot_seq) == drain_deltas(
            s2,
            deltas.drop_last(),
            snapshot_seq,
        ));
        assert(drain_deltas(s, t, snapshot_seq) == drain_deltas(s2, deltas, snapshot_seq));
    } else {
        assert(t.drop_last() =~= Seq::<OrderBookUpdate>::empty());
        assert(t.last() == d);
        assert(drain_deltas(s, t.drop_last(), snapshot_seq) == s);
        assert(drain_deltas(s2, deltas, snapshot_seq) == s2);
    }
}

/// A reset empties the buffer and the book, returns to `Pending` and moves
/// to a different generation.
pub proof fn law_reset(m: SyncModel)
    ensures
        reset_model(m).state is Pending,
        reset_model(m).buffer.len() == 0,
        reset_model(m).book.bids.len() == 0 && reset_model(m).book.asks.len() == 0,
        reset_model(m).book.sequence == 0,
        reset_model(m).generation != m.generation,
        reset_model(m).broadcast is Pending,
{
}

/// What every operation of a synchronizer keeps: the delta buffer within
/// its capacity, the book kept for the synchronizer's own symbol, the
/// receivers reading the current state, and an empty book until a snapshot
/// has been applied (in `Pending` and `Buffering`).
pub open spec fn sync_wf(m: SyncModel) -> bool {
    &&& m.buffer.len() <= MAX_BUFFER_CAPACITY
    &&& m.book.symbol == m.symbol
    &&& m.broadcast == m.state
    &&& (m.state is Pending || m.state is Buffering) ==> m.book.bids.len() == 0
        && m.book.asks.len() == 0 && m.book.sequence == 0
}

/// An empty book for `symbol`.
pub open spec fn empty_book(symbol: Seq<char>) -> BookModel {
    BookModel { symbol, bids: seq![], asks: seq![], sequence: 0 }
}

/// `g + 1`, wrapping at the top of the `u64` range.
pub open spec fn next_generation(g: u64) -> u64 {
    if g == u64::MAX {
        0
    } else {
        (g + 1) as u64
    }
}

/// The hard reset: back to `Pending` with an empty buffer and an empty
/// book, and the next generation.
pub open spec fn reset_model(m: SyncModel) -> SyncModel {
    SyncModel {
        symbol: m.symbol,
        book: empty_book(m.symbol),
        state: FeedState::Pending,
        buffer: seq![],
        generation: next_generation(m.generation),
        broadcast: FeedState::Pending,
    }
}

/// The effect of draining the buffered deltas after a snapshot at
/// `snapshot_seq`: deltas at or below the snapshot are dropped, the others
/// applied in order.
pub open spec fn drain_deltas(s: BookState, deltas: Seq<OrderBookUpdate>, snapshot_seq: u64) -> BookState
    decreases deltas.len(),
{
    if deltas.len() == 0 {
        s
    } else {
        let s1 = drain_deltas(s, deltas.drop_last(), snapshot_seq);
        if deltas.last().sequence <= snapshot_seq {
            s1
        } else {
            apply_update(s1, deltas.last())
        }
    }
}

/// `e` is an `InvalidTransition` error from the state `from` to the state
/// named `to`.
pub open spec fn is_invalid_transition(e: SyncError, from: FeedState, to: Seq<char>) -> bool {
    match e {
        SyncError::InvalidTransition { from: f, to: t } => f@ == feed_state_text(from) && t@ == to,
        _ => false,
    }
}

/// Owns the order book and the sync state machine for one trading symbol.
pub struct BookSynchronizer {
    symbol: String,
    /// The managed order book, written only by this struct.
    book: OrderBook,
    /// Current feed state (also broadcast via `state_tx`).
    state: FeedState,
    /// Delta buffer: filled while `Buffering`, drained while `Syncing`.
    buffer: VecDeque<OrderBookUpdate>,
    /// Incremented on every disconnect / reset; a REST snapshot task
    /// captures it at launch so that a stale response can be detected.
    generation: u64,
    /// Broadcasts the feed state to observers (engine, risk manager).
    state_tx: Sender<FeedState>,
}

impl View for BookSynchronizer {
    type V = SyncModel;

    closed spec fn view(&self) -> SyncModel {
        SyncModel {
            symbol: self.symbol@,
            book: self.book@,
            state: self.state,
            buffer: self.buffer@,
            generation: self.generation,
            broadcast: watch_slot(self.state_tx),
        }
    }
}

impl BookSynchronizer {
    /// A new synchronizer in `Pending`, with the receiving end of its state
    /// broadcast.
    pub fn new(symbol: &str) -> (r: (BookSynchronizer, Receiver<FeedState>))
        ensures
            r.0@ == (SyncModel {
                symbol: symbol@,
                book: empty_book(symbol@),
                state: FeedState::Pending,
                buffer: seq![],
                generation: 0,
                broadcast: FeedState::Pending,
            }),
            sync_wf(r.0@),
    {
        let (state_tx, state_rx) = watch_channel(FeedState::Pending);
        let sync = BookSynchronizer {
            symbol: symbol.to_owned(),
            book: OrderBook::new(symbol),
            state: FeedState::Pending,
            buffer: VecDeque::with_capacity(64),
            generation: 0,
            state_tx,
        };
        assert(sync@.buffer =~= seq![]);
        assert(sync@.book.bids =~= seq![]);
        assert(sync@.book.asks =~= seq![]);
        (sync, state_rx)
    }

    /// The current generation counter; capture it before launching a REST
    /// snapshot task and hand it back to [`Self::on_snapshot_received`].
    pub fn generation(&self) -> (r: u64)
        ensures
            r == self@.generation,
    {
        self.generation
    }

    /// `true` when the book is live and fit for strategy consumption.
    pub fn is_live(&self) -> (r: bool)
        ensures
            r == (self@.state is Live),
    {
        self.state.is_live()
    }

    /// The current feed state.
    pub fn state(&self) -> (r: FeedState)
        ensures
            r == self@.state,
    {
        self.state
    }

    /// Number of buffered deltas.
    pub fn buffer_len(&self) -> (r: usize)
        ensures
            r == self@.buffer.len(),
    {
        self.buffer.len()
    }

    /// Read-only access to the managed order book.
    pub fn book(&self) -> (r: &OrderBook)
        ensures
            r@ == self@.book,
    {
        &self.book
    }

    /// The WebSocket connection is established: `Pending` → `Buffering`.
    /// From any other state the transition is refused and nothing changes.
    pub fn on_ws_connected(&mut self) -> (r: Result<(), SyncError>)
        ensures
            old(self)@.state is Pending ==> r is Ok && final(self)@ == (SyncModel {
                state: FeedState::Buffering,
                broadcast: FeedState::Buffering,
                ..old(self)@
            }),
            !(old(self)@.state is Pending) ==> r is Err && is_invalid_transition(
                r->Err_0,
                old(self)@.state,
                "Buffering"@,
            ) && final(self)@ == old(self)@,
            sync_wf(old(self)@) ==> sync_wf(final(self)@),
    {
        match self.state {
            FeedState::Pending => {
                self.set_state(FeedState::Buffering);
                Ok(())
            },
            other => Err(
                SyncError::InvalidTransition { from: other.to_string(), to: "Buffering".to_owned() },
            ),
        }
    }

    /// An incoming WebSocket delta. `Pending`: discarded. `Buffering` or
    /// `Syncing`: appended to the buffer, unless the buffer is full, in
    /// which case the synchronizer resets and reports the overflow. `Live`:
    /// applied to the book.
    pub fn push_delta(&mut self, update: OrderBookUpdate) -> (r: Result<(), SyncError>)
        ensures
            old(self)@.state is Pending ==> r is Ok && final(self)@ == old(self)@,
            (old(self)@.state is Buffering || old(self)@.state is Syncing) && old(self)@.buffer.len()
                >= MAX_BUFFER_CAPACITY ==> r == Err::<(), SyncError>(
                SyncError::BufferOverflow { capacity: MAX_BUFFER_CAPACITY },
            ) && final(self)@ == reset_model(old(self)@),
            (old(self)@.state is Buffering || old(self)@.state is Syncing) && old(self)@.buffer.len()
                < MAX_BUFFER_CAPACITY ==> r is Ok && final(self)@ == (SyncModel {
                buffer: old(self)@.buffer.push(update),
                ..old(self)@
            }),
            sync_wf(old(self)@) ==> sync_wf(final(self)@),
            old(self)@.state is Live ==> r is Ok && final(self)@.symbol == old(self)@.symbol
                && final(self)@.state == old(self)@.state && final(self)@.buffer
                == old(self)@.buffer && final(self)@.generation == old(self)@.generation
                && final(self)@.book.symbol == old(self)@.book.symbol && book_state(
                final(self)@.book,
            ) == apply_update(book_state(old(self)@.book), update) && final(self)@.broadcast
                == old(self)@.broadcast,
    {
        match self.state {
            FeedState::Pending => Ok(()),
            FeedState::Buffering | FeedState::Syncing { .. } => {
                if self.buffer.len() >= MAX_BUFFER_CAPACITY {
                    self.reset();
                    return Err(SyncError::BufferOverflow { capacity: MAX_BUFFER_CAPACITY });
                }
                self.buffer.push_back(update);
                Ok(())
            },
            FeedState::Live => {
                self.book.apply(&update);
                Ok(())
            },
        }
    }

    /// The REST snapshot arrived. It is refused when `generation` no longer
    /// matches (the connection was reset meanwhile) or when not
    /// `Buffering`. A snapshot older than the oldest buffered delta leaves
    /// an irrecoverable gap: the synchronizer resets. Otherwise the
    /// snapshot is applied, the buffered deltas newer than it are applied in
    /// order (older ones dropped), and the feed goes `Live`.
    pub fn on_snapshot_received(&mut self, snapshot: OrderBookUpdate, generation: u64) -> (r: Result<
        (),
        SyncError,
    >)
        ensures
            generation != old(self)@.generation ==> r == Err::<(), SyncError>(
                SyncError::StaleSnapshot { expected: old(self)@.generation, got: generation },
            ) && final(self)@ == old(self)@,
            generation == old(self)@.generation && !(old(self)@.state is Buffering) ==> r is Err
                && is_invalid_transition(r->Err_0, old(self)@.state, "Syncing"@) && final(self)@
                == old(self)@,
            generation == old(self)@.generation && old(self)@.state is Buffering
                && old(self)@.buffer.len() > 0 && snapshot.sequence
                < old(self)@.buffer[0].sequence ==> r == Err::<(), SyncError>(
                SyncError::SequenceGap {
                    snapshot_seq: snapshot.sequence,
                    oldest_delta_seq: old(self)@.buffer[0].sequence,
                },
            ) && final(self)@ == reset_model(old(self)@),
            generation == old(self)@.generation && old(self)@.state is Buffering && (
            old(self)@.buffer.len() == 0 || snapshot.sequence >= old(self)@.buffer[0].sequence)
                ==> r is Ok && final(self)@.state == FeedState::Live && final(self)@.buffer.len()
                == 0 && final(self)@.generation == old(self)@.generation && final(self)@.symbol
                == old(self)@.symbol && final(self)@.book.symbol == old(self)@.book.symbol
                && book_state(final(self)@.book) == drain_deltas(
                apply_update(book_state(old(self)@.book), snapshot),
                old(self)@.buffer,
                snapshot.sequence,
            ) && final(self)@.broadcast == FeedState::Live,
            sync_wf(old(self)@) && generation == old(self)@.generation && old(self)@.state is Buffering
                && (old(self)@.buffer.len() == 0 || snapshot.sequence >= old(self)@.buffer[0].sequence)
                ==> book_state(final(self)@.book) == drain_deltas(
                apply_update(book_state(empty_book(old(self)@.symbol)), snapshot),
                old(self)@.buffer,
                snapshot.sequence,
            ),
            sync_wf(old(self)@) ==> sync_wf(final(self)@),
    {
        proof {
            if sync_wf(self@) && self@.state is Buffering {
                assert(self@.book.bids =~= empty_book(self@.symbol).bids);
                assert(self@.book.asks =~= empty_book(self@.symbol).asks);
                assert(self@.book == empty_book(self@.symbol));
            }
        }
        if generation != self.generation {
            return Err(SyncError::StaleSnapshot { expected: self.generation, got: generation });
        }
        match self.state {
            FeedState::Buffering => {},
            other => {
                return Err(
                    SyncError::InvalidTransition {
                        from: other.to_string(),
                        to: "Syncing".to_owned(),
                    },
                );
            },
        }
        let snapshot_seq = snapshot.sequence;
        if self.buffer.len() > 0 {
            let oldest_delta_seq = self.buffer[0].sequence;
            if snapshot_seq < oldest_delta_seq {
                self.reset();
                return Err(SyncError::SequenceGap { snapshot_seq, oldest_delta_seq });
            }
        }
        // Apply the snapshot as the authoritative baseline.
        self.book.apply(&snapshot);
        self.set_state(FeedState::Syncing { snapshot_seq });
        // Drain the buffer: drop deltas covered by the snapshot, apply the rest.
        let ghost deltas = self.buffer@;
        let ghost base = book_state(self.book@);
        let ghost sym = self.book@.symbol;
        let ghost mut k: int = 0;
        proof {
            assert(deltas.subrange(0, 0) =~= Seq::<OrderBookUpdate>::empty());
            assert(deltas.subrange(0, deltas.len() as int) =~= deltas);
        }
        while self.buffer.len() > 0
            invariant
                0 <= k <= deltas.len(),
                self.buffer@ == deltas.subrange(k, deltas.len() as int),
                book_state(self.book@) == drain_deltas(base, deltas.subrange(0, k), snapshot_seq),
                self.book@.symbol == sym,
                self.symbol@ == old(self)@.symbol,
                self.generation == old(self)@.generation,
            decreases self.buffer@.len(),
        {
            let popped = self.buffer.pop_front();
            if let Some(delta) = popped {
                proof {
                    assert(deltas.subrange(0, k + 1).drop_last() =~= deltas.subrange(0, k));
                    assert(deltas.subrange(0, k + 1).last() == delta);
                    k = k + 1;
                }
                if delta.sequence > snapshot_seq {
                    self.book.apply(&delta);
                }
            }
        }
        assert(k == deltas.len());
        self.set_state(FeedState::Live);
        Ok(())
    }

    /// The WebSocket connection was lost (from any state): the generation
    /// moves on (invalidating any REST task in flight), the buffer is
    /// cleared and the book emptied.
    pub fn on_ws_disconnected(&mut self)
        ensures
            final(self)@ == reset_model(old(self)@),
            sync_wf(final(self)@),
    {
        self.reset();
    }

    fn set_state(&mut self, new: FeedState)
        ensures
            final(self)@ == (SyncModel { state: new, broadcast: new, ..old(self)@ }),
    {
        self.state = new;
        watch_send(&mut self.state_tx, new);
    }

    /// Hard reset: back to `Pending`, buffer cleared, book emptied,
    /// generation + 1 (wrapping).
    fn reset(&mut self)
        ensures
            final(self)@ == reset_model(old(self)@),
    {
        self.buffer.clear();
        self.book = OrderBook::new(self.symbol.as_str());
        self.generation = self.generation.wrapping_add(1);
        self.set_state(FeedState::Pending);
        assert(self@.buffer =~= seq![]);
        assert(self@.book.bids =~= seq![]);
        assert(self@.book.asks =~= seq![]);
    }
}

} // verus!
