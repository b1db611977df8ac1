//! In-memory order book: two flat vectors of price levels kept sorted
//! (bids descending, asks ascending) by binary search and in-place
//! insertion, so that the best level is always at index 0.

use vstd::prelude::*;
use crate::domain::decimal::{
    Decimal, decimal_checked_add, decimal_checked_div, decimal_checked_sub, max_units,
    representable,
};
use crate::domain::models::{OrderBookUpdate, PriceLevel, Side};

verus! {

/// Pre-allocated capacity for each side of a new book.
pub const INITIAL_CAPACITY: usize = 500;

/// The price of a level, as a number (units of 10^-28).
pub open spec fn key(l: PriceLevel) -> int {
    l.price.value()
}

/// On side `side`, a level priced `a` is ranked before one priced `b`:
/// bids are ranked from the highest price, asks from the lowest.
pub open spec fn before(side: Side, a: int, b: int) -> bool {
    match side {
        Side::Buy => a > b,
        Side::Sell => a < b,
    }
}

/// The levels are strictly ordered for `side` (hence prices are distinct).
pub open spec fn sorted_levels(s: Seq<PriceLevel>, side: Side) -> bool {
    forall|i: int, j: int| 0 <= i < j < s.len() ==> before(side, key(s[i]), key(s[j]))
}

/// No level carries a zero quantity.
pub open spec fn nonzero_levels(s: Seq<PriceLevel>) -> bool {
    forall|i: int| 0 <= i < s.len() ==> (#[trigger] s[i]).quantity.value() != 0
}

/// Some level of `s` has price `k`.
pub open spec fn has_key(s: Seq<PriceLevel>, k: int) -> bool {
    exists|i: int| 0 <= i < s.len() && #[trigger] key(s[i]) == k
}

/// The level of `s` priced `k` (meaningful when `has_key(s, k)`).
pub open spec fn level_at(s: Seq<PriceLevel>, k: int) -> PriceLevel {
    s[choose|i: int| 0 <= i < s.len() && #[trigger] key(s[i]) == k]
}

/// The levels of one side as a map from price to level.
pub open spec fn level_map(s: Seq<PriceLevel>) -> Map<int, PriceLevel> {
    Map::new(|k: int| has_key(s, k), |k: int| level_at(s, k))
}

/// The effect of one update level on a side: a zero quantity deletes the
/// level at that price; otherwise the quantity of an existing level is
/// replaced (its price is kept), or the update is added as a new level.
pub open spec fn upsert_map(m: Map<int, PriceLevel>, u: PriceLevel) -> Map<int, PriceLevel> {
    let k = key(u);
    if u.quantity.value() == 0 {
        m.remove(k)
    } else if m.dom().contains(k) {
        m.insert(k, PriceLevel { price: m[k].price, quantity: u.quantity })
    } else {
        m.insert(k, u)
    }
}

/// The effect of a sequence of update levels, applied in order.
pub open spec fn upsert_all(m: Map<int, PriceLevel>, us: Seq<PriceLevel>) -> Map<
    int,
    PriceLevel,
>
    decreases us.len(),
{
    if us.len() == 0 {
        m
    } else {
        upsert_map(upsert_all(m, us.drop_last()), us.last())
    }
}

/// The abstract content of an order book.
pub struct BookModel {
    pub symbol: Seq<char>,
    /// Bid levels, best (highest price) first.
    pub bids: Seq<PriceLevel>,
    /// Ask levels, best (lowest price) first.
    pub asks: Seq<PriceLevel>,
    /// Sequence number of the last update applied.
    pub sequence: u64,
}

/// Well-formedness of a book: bids strictly descending, asks strictly
/// ascending, no empty level.
pub open spec fn book_wf(b: BookModel) -> bool {
    &&& sorted_levels(b.bids, Side::Buy)
    &&& sorted_levels(b.asks, Side::Sell)
    &&& nonzero_levels(b.bids)
    &&& nonzero_levels(b.asks)
}

/// The content of a book that its queries depend on: the sequence and the
/// levels of each side, keyed by price.
pub struct BookState {
    pub sequence: u64,
    pub bids: Map<int, PriceLevel>,
    pub asks: Map<int, PriceLevel>,
}

/// The content of a book model.
pub open spec fn book_state(b: BookModel) -> BookState {
    BookState { sequence: b.sequence, bids: level_map(b.bids), asks: level_map(b.asks) }
}

/// The effect of one update on a book: a stale update (sequence not above
/// the book's) changes nothing; any other sets the sequence and applies its
/// levels, in order, to each side.
pub open spec fn apply_update(s: BookState, u: OrderBookUpdate) -> BookState {
    if u.sequence <= s.sequence {
        s
    } else {
        BookState {
            sequence: u.sequence,
            bids: upsert_all(s.bids, u.bids@),
            asks: upsert_all(s.asks, u.asks@),
        }
    }
}

/// A flat-vector order book for a single trading pair.
pub struct OrderBook {
    symbol: String,
    bids: Vec<PriceLevel>,
    asks: Vec<PriceLevel>,
    sequence: u64,
}

impl View for OrderBook {
    type V = BookModel;

    closed spec fn view(&self) -> BookModel {
        BookModel {
            symbol: self.symbol@,
            bids: self.bids@,
            asks: self.asks@,
            sequence: self.sequence,
        }
    }
}

// ---------------------------------------------------------------------------
// Lemmas on sorted sides
// ---------------------------------------------------------------------------

/// In a sorted side, the level found for the price of `s[i]` is `s[i]`.
pub proof fn lemma_level_at(s: Seq<PriceLevel>, side: Side, i: int)
    requires
        sorted_levels(s, side),
        0 <= i < s.len(),
    ensures
        has_key(s, key(s[i])),
        level_at(s, key(s[i])) == s[i],
        level_map(s).dom().contains(key(s[i])),
        level_map(s)[key(s[i])] == s[i],
{
    assert(key(s[i]) == key(s[i]));
    let j = choose|j: int| 0 <= j < s.len() && #[trigger] key(s[j]) == key(s[i]);
    if j < i {
        assert(before(side, key(s[j]), key(s[i])));
    } else if i < j {
        assert(before(side, key(s[i]), key(s[j])));
    }
}

/// Inserting a new price at its ranked position keeps the side sorted and
/// adds exactly that level.
proof fn lemma_insert(s: Seq<PriceLevel>, side: Side, pos: int, u: PriceLevel)
    requires
        sorted_levels(s, side),
        0 <= pos <= s.len(),
        forall|i: int| 0 <= i < pos ==> before(side, key(s[i]), key(u)),
        forall|i: int| pos <= i < s.len() ==> !before(side, key(s[i]), key(u)),
        !has_key(s, key(u)),
    ensures
        sorted_levels(s.insert(pos, u), side),
        level_map(s.insert(pos, u)) == level_map(s).insert(key(u), u),
{
    let t = s.insert(pos, u);
    assert forall|i: int| pos <= i < s.len() implies before(side, key(u), key(s[i])) by {
        if key(s[i]) == key(u) {
            assert(has_key(s, key(u)));
        }
    }
    assert forall|i: int, j: int| 0 <= i < j < t.len() implies before(
        side,
        key(t[i]),
        key(t[j]),
    ) by {
        if j < pos {
        } else if j == pos {
        } else if i < pos {
            assert(before(side, key(s[i]), key(u)));
            assert(before(side, key(u), key(s[j - 1])));
        } else if i == pos {
        } else {
        }
    }
    assert forall|k: int| #[trigger] has_key(t, k) == (has_key(s, k) || k == key(u)) by {
        if has_key(t, k) {
            let i = choose|i: int| 0 <= i < t.len() && #[trigger] key(t[i]) == k;
            if i < pos {
                assert(key(s[i]) == k);
            } else if i > pos {
                assert(key(s[i - 1]) == k);
            }
        }
        if has_key(s, k) {
            let i = choose|i: int| 0 <= i < s.len() && #[trigger] key(s[i]) == k;
            if i < pos {
                assert(key(t[i]) == k);
            } else {
                assert(key(t[i + 1]) == k);
            }
        }
        if k == key(u) {
            assert(key(t[pos]) == k);
        }
    }
    assert forall|k: int| has_key(t, k) implies #[trigger] level_at(t, k) == level_map(s).insert(
        key(u),
        u,
    )[k] by {
        let i = choose|i: int| 0 <= i < t.len() && #[trigger] key(t[i]) == k;
        lemma_level_at(t, side, i);
        if i < pos {
            lemma_level_at(s, side, i);
        } else if i > pos {
            lemma_level_at(s, side, i - 1);
        }
    }
    assert(level_map(t) =~= level_map(s).insert(key(u), u));
}

/// Removing the level at `pos` removes exactly its price.
proof fn lemma_remove(s: Seq<PriceLevel>, side: Side, pos: int)
    requires
        sorted_levels(s, side),
        0 <= pos < s.len(),
    ensures
        sorted_levels(s.remove(pos), side),
        level_map(s.remove(pos)) == level_map(s).remove(key(s[pos])),
{
    let t = s.remove(pos);
    let k0 = key(s[pos]);
    assert forall|i: int, j: int| 0 <= i < j < t.len() implies before(
        side,
        key(t[i]),
        key(t[j]),
    ) by {
        let ii = if i < pos {
            i
        } else {
            i + 1
        };
        let jj = if j < pos {
            j
        } else {
            j + 1
        };
        assert(before(side, key(s[ii]), key(s[jj])));
    }
    assert forall|k: int| #[trigger] has_key(t, k) == (has_key(s, k) && k != k0) by {
        if has_key(t, k) {
            let i = choose|i: int| 0 <= i < t.len() && #[trigger] key(t[i]) == k;
            if i < pos {
                assert(key(s[i]) == k);
                assert(before(side, key(s[i]), key(s[pos])));
            } else {
                assert(key(s[i + 1]) == k);
                assert(before(side, key(s[pos]), key(s[i + 1])));
            }
        }
        if has_key(s, k) && k != k0 {
            let i = choose|i: int| 0 <= i < s.len() && #[trigger] key(s[i]) == k;
            if i < pos {
                assert(key(t[i]) == k);
            } else {
                assert(key(t[i - 1]) == k);
            }
        }
    }
    assert forall|k: int| has_key(t, k) implies #[trigger] level_at(t, k) == level_map(s).remove(
        k0,
    )[k] by {
        let i = choose|i: int| 0 <= i < t.len() && #[trigger] key(t[i]) == k;
        lemma_level_at(t, side, i);
        if i < pos {
            lemma_level_at(s, side, i);
        } else {
            lemma_level_at(s, side, i + 1);
        }
    }
    assert(level_map(t) =~= level_map(s).remove(k0));
}

/// Replacing the level at `pos` by one of the same price replaces it in
/// the map.
proof fn lemma_update(s: Seq<PriceLevel>, side: Side, pos: int, x: PriceLevel)
    requires
        sorted_levels(s, side),
        0 <= pos < s.len(),
        key(x) == key(s[pos]),
    ensures
        sorted_levels(s.update(pos, x), side),
        level_map(s.update(pos, x)) == level_map(s).insert(key(x), x),
{
    let t = s.update(pos, x);
    assert forall|i: int, j: int| 0 <= i < j < t.len() implies before(
        side,
        key(t[i]),
        key(t[j]),
    ) by {
        assert(before(side, key(s[i]), key(s[j])));
    }
    assert forall|k: int| #[trigger] has_key(t, k) == has_key(s, k) by {
        if has_key(t, k) {
            let i = choose|i: int| 0 <= i < t.len() && #[trigger] key(t[i]) == k;
            assert(key(s[i]) == k);
        }
        if has_key(s, k) {
            let i = choose|i: int| 0 <= i < s.len() && #[trigger] key(s[i]) == k;
            assert(key(t[i]) == k);
        }
    }
    lemma_level_at(s, side, pos);
    assert forall|k: int| has_key(t, k) implies #[trigger] level_at(t, k) == level_map(s).insert(
        key(x),
        x,
    )[k] by {
        let i = choose|i: int| 0 <= i < t.len() && #[trigger] key(t[i]) == k;
        lemma_level_at(t, side, i);
        lemma_level_at(s, side, i);
        if i < pos {
            assert(before(side, key(t[i]), key(t[pos])));
        } else if i > pos {
            assert(before(side, key(t[pos]), key(t[i])));
        }
    }
    assert(level_map(t) =~= level_map(s).insert(key(x), x));
}

/// Calls `Vec::capacity`: never below the length. How much more the
/// allocator gave is not stated.
#[verifier::external_body]
fn vec_capacity(v: &Vec<PriceLevel>) -> (r: usize)
    ensures
        r >= v@.len(),
{
    v.capacity()
}

// ---------------------------------------------------------------------------
// Laws
// ---------------------------------------------------------------------------

/// In a well-formed book the best (first) bid carries the highest bid
/// price and the best (first) ask the lowest ask price.
pub proof fn law_best_levels_are_extreme(b: BookModel)
    requires
        book_wf(b),
    ensures
        b.bids.len() > 0 ==> forall|k: int| #[trigger]
            level_map(b.bids).dom().contains(k) ==> k <= key(b.bids[0]),
        b.asks.len() > 0 ==> forall|k: int| #[trigger]
            level_map(b.asks).dom().contains(k) ==> key(b.asks[0]) <= k,
{
    assert forall|k: int| #[trigger] level_map(b.bids).dom().contains(k) implies k <= key(b.bids[0]) by {
        let i = choose|i: int| 0 <= i < b.bids.len() && #[trigger] key(b.bids[i]) == k;
        if i > 0 {
            assert(before(Side::Buy, key(b.bids[0]), key(b.bids[i])));
        }
    }
    assert forall|k: int| #[trigger] level_map(b.asks).dom().contains(k) implies key(b.asks[0]) <= k by {
        let i = choose|i: int| 0 <= i < b.asks.len() && #[trigger] key(b.asks[i]) == k;
        if i > 0 {
            assert(before(Side::Sell, key(b.asks[0]), key(b.asks[i])));
        }
    }
}

/// A level with a zero quantity deletes its price from the side, and a
/// level with any other quantity leaves that price present with that
/// quantity.
pub proof fn law_upsert_level(m: Map<int, PriceLevel>, u: PriceLevel)
    ensures
        u.quantity.value() == 0 ==> !upsert_map(m, u).dom().contains(key(u)),
        u.quantity.value() != 0 ==> upsert_map(m, u).dom().contains(key(u)) && upsert_map(
            m,
            u,
        )[key(u)].quantity == u.quantity,
        forall|k: int| k != key(u) ==> #[trigger] upsert_map(m, u).dom().contains(k) == m.dom().contains(k),
{
}

/// Applying an update never lowers the book's sequence, and applying the
/// same update a second time changes nothing.
pub proof fn law_apply_monotone_and_idempotent(s: BookState, u: OrderBookUpdate)
    ensures
        apply_update(s, u).sequence >= s.sequence,
        apply_update(apply_update(s, u), u) == apply_update(s, u),
{
}

// ---------------------------------------------------------------------------
// The book
// ---------------------------------------------------------------------------

impl OrderBook {
    #[verifier::type_invariant]
    closed spec fn inv(self) -> bool {
        book_wf(self@)
    }

    /// An empty book with pre-allocated capacity.
    pub fn new(symbol: &str) -> (r: OrderBook)
        ensures
            r@.symbol == symbol@,
            r@.bids.len() == 0,
            r@.asks.len() == 0,
            r@.sequence == 0,
    {
        OrderBook {
            symbol: symbol.to_owned(),
            bids: Vec::with_capacity(INITIAL_CAPACITY),
            asks: Vec::with_capacity(INITIAL_CAPACITY),
            sequence: 0,
        }
    }

    /// Every book is well formed.
    pub fn lemma_wf(&self)
        ensures
            book_wf(self@),
    {
        proof {
            use_type_invariant(self);
        }
    }

    /// Apply an incremental update. A stale update (sequence not above the
    /// book's) is discarded; otherwise the book takes the update's sequence
    /// and each level of the update is applied to its side in order: a zero
    /// quantity deletes the level, any other quantity replaces or inserts.
    pub fn apply(&mut self, update: &OrderBookUpdate)
        ensures
            book_wf(final(self)@),
            update.sequence <= old(self)@.sequence ==> final(self)@ == old(self)@,
            final(self)@.symbol == old(self)@.symbol,
            book_state(final(self)@) == apply_update(book_state(old(self)@), *update),
    {
        proof {
            use_type_invariant(&*self);
        }
        if update.sequence <= self.sequence {
            return ;
        }
        self.sequence = update.sequence;
        let mut bids: Vec<PriceLevel> = Vec::new();
        std::mem::swap(&mut bids, &mut self.bids);
        Self::apply_batch(&mut bids, &update.bids, Side::Buy);
        self.bids = bids;
        let mut asks: Vec<PriceLevel> = Vec::new();
        std::mem::swap(&mut asks, &mut self.asks);
        Self::apply_batch(&mut asks, &update.asks, Side::Sell);
        self.asks = asks;
    }

    /// Best bid: the first (highest) bid level.
    pub fn best_bid(&self) -> (r: Option<&PriceLevel>)
        ensures
            self@.bids.len() == 0 ==> r is None,
            self@.bids.len() > 0 ==> r == Some(&self@.bids[0]),
    {
        if self.bids.len() == 0 {
            None
        } else {
            Some(&self.bids[0])
        }
    }

    /// Best ask: the first (lowest) ask level.
    pub fn best_ask(&self) -> (r: Option<&PriceLevel>)
        ensures
            self@.asks.len() == 0 ==> r is None,
            self@.asks.len() > 0 ==> r == Some(&self@.asks[0]),
    {
        if self.asks.len() == 0 {
            None
        } else {
            Some(&self.asks[0])
        }
    }

    /// `(best bid + best ask) / 2`, or `None` when a side is empty. The sum
    /// of the two best prices must be computable without overflow.
    pub fn mid_price(&self) -> (r: Option<Decimal>)
        requires
            self@.bids.len() > 0 && self@.asks.len() > 0 ==> decimal_checked_add(
                self@.bids[0].price@,
                self@.asks[0].price@,
            ) is Some,
        ensures
            self@.bids.len() == 0 || self@.asks.len() == 0 ==> r is None,
            self@.bids.len() > 0 && self@.asks.len() > 0 ==> r is Some && {
                let sum = decimal_checked_add(self@.bids[0].price@, self@.asks[0].price@);
                &&& sum is Some
                &&& Some(r->0@) == decimal_checked_div(sum->0, (2int, 0nat))
            },
    {
        let bid = match self.best_bid() {
            Some(l) => l.price,
            None => return None,
        };
        let ask = match self.best_ask() {
            Some(l) => l.price,
            None => return None,
        };
        let sum = match bid.checked_add(&ask) {
            Some(s) => s,
            None => {
                assert(false);
                return None;
            },
        };
        let two = Decimal::two();
        sum.lemma_value_range();
        proof {
            crate::domain::decimal::lemma_pow10_positive(28);
            assert(two.value() == 2 * crate::domain::decimal::pow10(28));
            assert(max_units() == crate::domain::decimal::MAX_MANTISSA * crate::domain::decimal::pow10(28));
        }
        match sum.checked_div(&two) {
            Some(m) => Some(m),
            None => {
                assert(false);
                None
            },
        }
    }

    /// `best ask - best bid`, or `None` when a side is empty. The
    /// difference must be computable without overflow.
    pub fn spread(&self) -> (r: Option<Decimal>)
        requires
            self@.bids.len() > 0 && self@.asks.len() > 0 ==> decimal_checked_sub(
                self@.asks[0].price@,
                self@.bids[0].price@,
            ) is Some,
        ensures
            self@.bids.len() == 0 || self@.asks.len() == 0 ==> r is None,
            self@.bids.len() > 0 && self@.asks.len() > 0 ==> r is Some && Some(r->0@)
                == decimal_checked_sub(self@.asks[0].price@, self@.bids[0].price@),
            self@.bids.len() > 0 && self@.asks.len() > 0 && representable(
                key(self@.asks[0]) - key(self@.bids[0]),
            ) ==> r is Some && r->0.value() == key(self@.asks[0]) - key(self@.bids[0]),
    {
        let ask = match self.best_ask() {
            Some(l) => l.price,
            None => return None,
        };
        let bid = match self.best_bid() {
            Some(l) => l.price,
            None => return None,
        };
        ask.checked_sub(&bid)
    }

    /// The mid price where it can be computed: `None` when both sides are
    /// set and the sum of the best prices overflows, otherwise the result
    /// of [`Self::mid_price`].
    pub fn try_mid_price(&self) -> (r: Option<Option<Decimal>>)
        ensures
            r is None <==> (self@.bids.len() > 0 && self@.asks.len() > 0 && decimal_checked_add(
                self@.bids[0].price@,
                self@.asks[0].price@,
            ) is None),
            r matches Some(m) ==> (self@.bids.len() == 0 || self@.asks.len() == 0 ==> m is None),
            r matches Some(m) ==> (self@.bids.len() > 0 && self@.asks.len() > 0 ==> m is Some
                && Some(m->0@) == decimal_checked_div(
                decimal_checked_add(self@.bids[0].price@, self@.asks[0].price@)->0,
                (2int, 0nat),
            )),
    {
        if self.bids.len() > 0 && self.asks.len() > 0 {
            if self.bids[0].price.checked_add(&self.asks[0].price).is_none() {
                return None;
            }
        }
        Some(self.mid_price())
    }

    /// The spread where it can be computed: `None` when both sides are set
    /// and the difference of the best prices overflows, otherwise the
    /// result of [`Self::spread`].
    pub fn try_spread(&self) -> (r: Option<Option<Decimal>>)
        ensures
            r is None <==> (self@.bids.len() > 0 && self@.asks.len() > 0 && decimal_checked_sub(
                self@.asks[0].price@,
                self@.bids[0].price@,
            ) is None),
            r matches Some(m) ==> (self@.bids.len() == 0 || self@.asks.len() == 0 ==> m is None),
            r matches Some(m) ==> (self@.bids.len() > 0 && self@.asks.len() > 0 ==> m is Some
                && Some(m->0@) == decimal_checked_sub(self@.asks[0].price@, self@.bids[0].price@)),
    {
        if self.bids.len() > 0 && self.asks.len() > 0 {
            if self.asks[0].price.checked_sub(&self.bids[0].price).is_none() {
                return None;
            }
        }
        Some(self.spread())
    }

    /// Capacity allocated for bid levels.
    pub fn bid_capacity(&self) -> (r: usize)
        ensures
            r >= self@.bids.len(),
    {
        vec_capacity(&self.bids)
    }

    /// Capacity allocated for ask levels.
    pub fn ask_capacity(&self) -> (r: usize)
        ensures
            r >= self@.asks.len(),
    {
        vec_capacity(&self.asks)
    }

    /// Number of bid levels.
    pub fn bid_depth(&self) -> (r: usize)
        ensures
            r == self@.bids.len(),
    {
        self.bids.len()
    }

    /// Number of ask levels.
    pub fn ask_depth(&self) -> (r: usize)
        ensures
            r == self@.asks.len(),
    {
        self.asks.len()
    }

    /// The traded symbol.
    pub fn symbol(&self) -> (r: &str)
        ensures
            r@ == self@.symbol,
    {
        self.symbol.as_str()
    }

    /// Sequence number of the last applied update.
    pub fn sequence(&self) -> (r: u64)
        ensures
            r == self@.sequence,
    {
        self.sequence
    }

    /// Binary search: the number of levels ranked strictly before `target`.
    fn partition_point(slab: &Vec<PriceLevel>, target: &Decimal, side: Side) -> (pos: usize)
        requires
            sorted_levels(slab@, side),
        ensures
            pos <= slab@.len(),
            forall|i: int| 0 <= i < pos ==> before(side, key(slab@[i]), target.value()),
            forall|i: int|
                pos <= i < slab@.len() ==> !before(side, key(slab@[i]), target.value()),
    {
        let mut lo: usize = 0;
        let mut hi: usize = slab.len();
        while lo < hi
            invariant
                sorted_levels(slab@, side),
                lo <= hi <= slab@.len(),
                forall|i: int| 0 <= i < lo ==> before(side, key(slab@[i]), target.value()),
                forall|i: int|
                    hi <= i < slab@.len() ==> !before(side, key(slab@[i]), target.value()),
            decreases hi - lo,
        {
            let mid = lo + (hi - lo) / 2;
            if Self::ranks_before(&slab[mid], target, side) {
                assert forall|i: int| 0 <= i <= mid implies before(
                    side,
                    key(slab@[i]),
                    target.value(),
                ) by {
                    if i < mid {
                        assert(before(side, key(slab@[i]), key(slab@[mid as int])));
                    }
                }
                lo = mid + 1;
            } else {
                assert forall|i: int| mid <= i < slab@.len() implies !before(
                    side,
                    key(slab@[i]),
                    target.value(),
                ) by {
                    if i > mid {
                        assert(before(side, key(slab@[mid as int]), key(slab@[i])));
                    }
                }
                hi = mid;
            }
        }
        lo
    }

    /// `lvl` is ranked before `target` on `side`.
    fn ranks_before(lvl: &PriceLevel, target: &Decimal, side: Side) -> (r: bool)
        ensures
            r == before(side, key(*lvl), target.value()),
    {
        match side {
            Side::Buy => lvl.price.greater_than(target),
            Side::Sell => lvl.price.less_than(target),
        }
    }

    /// Apply a batch of level updates to one side, keeping it sorted.
    fn apply_batch(slab: &mut Vec<PriceLevel>, updates: &Vec<PriceLevel>, side: Side)
        requires
            sorted_levels(old(slab)@, side),
            nonzero_levels(old(slab)@),
        ensures
            sorted_levels(final(slab)@, side),
            nonzero_levels(final(slab)@),
            level_map(final(slab)@) == upsert_all(level_map(old(slab)@), updates@),
    {
        let n = updates.len();
        let mut idx: usize = 0;
        while idx < n
            invariant
                n == updates@.len(),
                idx <= n,
                sorted_levels(slab@, side),
                nonzero_levels(slab@),
                level_map(slab@) == upsert_all(level_map(old(slab)@), updates@.subrange(0, idx as int)),
            decreases n - idx,
        {
            let update = updates[idx];
            let ghost before_slab = slab@;
            let ghost m = level_map(slab@);
            let pos = Self::partition_point(slab, &update.price, side);
            let found = pos < slab.len() && slab[pos].price == update.price;
            if found {
                proof {
                    lemma_level_at(slab@, side, pos as int);
                }
                if update.quantity.is_zero() {
                    slab.remove(pos);
                    proof {
                        lemma_remove(before_slab, side, pos as int);
                        assert forall|i: int| 0 <= i < slab@.len() implies (
                        #[trigger] slab@[i]).quantity.value() != 0 by {
                            if i < pos {
                                assert(slab@[i] == before_slab[i]);
                            } else {
                                assert(slab@[i] == before_slab[i + 1]);
                            }
                        }
                    }
                } else {
                    let existing = slab[pos];
                    let lvl = PriceLevel { price: existing.price, quantity: update.quantity };
                    slab.set(pos, lvl);
                    proof {
                        lemma_update(before_slab, side, pos as int, lvl);
                    }
                }
            } else {
                proof {
                    if has_key(slab@, update.price.value()) {
                        let i = choose|i: int|
                            0 <= i < slab@.len() && #[trigger] key(slab@[i]) == update.price.value();
                        if i < pos {
                        } else if i > pos {
                            assert(before(side, key(slab@[pos as int]), key(slab@[i])));
                        }
                    }
                }
                if !update.quantity.is_zero() {
                    slab.insert(pos, update);
                    proof {
                        lemma_insert(before_slab, side, pos as int, update);
                        assert forall|i: int| 0 <= i < slab@.len() implies (
                        #[trigger] slab@[i]).quantity.value() != 0 by {
                            if i < pos {
                                assert(slab@[i] == before_slab[i]);
                            } else if i > pos {
                                assert(slab@[i] == before_slab[i - 1]);
                            }
                        }
                    }
                } else {
                    proof {
                        assert(m.remove(key(update)) =~= m);
                    }
                }
            }
            proof {
                let us = updates@.subrange(0, idx as int + 1);
                assert(us.drop_last() =~= updates@.subrange(0, idx as int));
                assert(us.last() == update);
            }
            idx = idx + 1;
        }
        proof {
            assert(updates@.subrange(0, n as int) =~= updates@);
        }
    }
}

} // verus!
