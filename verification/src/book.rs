//! The local order book and the updates that it is kept by.

use std::collections::BTreeMap;
use std::time::Instant;
use vstd::prelude::*;
use vstd::std_specs::btree::increasing_seq;
use vstd::std_specs::cmp::OrdSpec;
use vstd::std_specs::iter::IteratorSpec;
use crate::clock::{measured_since, nanos_since, now_nanos};
use crate::source::StreamSource;

verus! {

/// A price level, on the tick grid of a book.
///
/// A quantity is held as the bit pattern of a double-precision number. The book
/// stores quantities and hands them back; of their value it only asks whether
/// it is zero.
#[derive(Debug, Clone, Copy, PartialEq, Eq)]
pub struct PriceLevel {
    /// The price, in ticks.
    pub price: u64,
    /// The quantity, as a bit pattern.
    pub qty: u64,
}

impl PriceLevel {
    /// Creates a level from a price in ticks and a quantity.
    pub fn new(price: u64, qty: u64) -> (level: Self)
        ensures
            level == (PriceLevel { price, qty }),
    {
        PriceLevel { price, qty }
    }
}

/// The bit pattern of zero or of negative zero: all bits but the sign are clear.
pub open spec fn is_zero(qty: u64) -> bool {
    qty == 0 || qty == 0x8000_0000_0000_0000
}

/// An incoming order-book update, tagged with its origin stream.
///
/// `L` is the form that its levels have: the texts that a stream sent, or
/// levels on the tick grid of a book.
#[derive(Debug, Clone)]
pub struct BookUpdate<L> {
    /// Which stream produced this update.
    pub source: StreamSource,
    /// Exchange timestamp (nanoseconds since epoch).
    pub exch_ts: i64,
    /// Local receive timestamp (nanoseconds since epoch).
    pub local_ts: i64,
    /// Bid levels to apply (empty: no bids in this update).
    pub bids: Vec<L>,
    /// Ask levels to apply (empty: no asks in this update).
    pub asks: Vec<L>,
    /// If `true`, `bids` and `asks` each replace their whole side of the book
    /// (snapshot). If `false`, they are incremental diffs.
    pub is_snapshot: bool,
}

/// A level as the book stores it.
#[derive(Debug, Clone, Copy)]
pub struct LevelMeta {
    /// The quantity, as a bit pattern.
    pub qty: u64,
    /// Which stream last touched this level.
    pub source: StreamSource,
    /// Exchange timestamp of the last update to this level.
    pub last_exch_ts: i64,
    /// Local receive timestamp of the last update to this level.
    pub last_local_ts: i64,
    /// Network delay at the time of apply: the wall clock then, less the
    /// exchange timestamp.
    pub delay_ns: i64,
}

/// A single timing measurement, captured on each `apply()` call.
#[derive(Debug, Clone, Copy)]
pub struct TimingRecord {
    pub elapsed_ns: u128,
    pub bids: u32,
    pub asks: u32,
    pub source: StreamSource,
}

/// The quantity of the first of `levels` at `tick` that is not zero.
pub open spec fn first_quantity(levels: Seq<PriceLevel>, tick: u64) -> Option<u64>
    decreases levels.len(),
{
    if levels.len() == 0 {
        None
    } else {
        match first_quantity(levels.drop_last(), tick) {
            Some(qty) => Some(qty),
            None => if levels.last().price == tick && !is_zero(levels.last().qty) {
                Some(levels.last().qty)
            } else {
                None
            },
        }
    }
}

/// Some level of `levels` is at `tick`.
pub open spec fn mentions(levels: Seq<PriceLevel>, tick: u64) -> bool {
    exists|i: int| 0 <= i < levels.len() && (#[trigger] levels[i]).price == tick
}

impl<L> BookUpdate<L> {
    /// The same update with its levels in another form.
    pub fn with_levels<M>(self, bids: Vec<M>, asks: Vec<M>) -> (update: BookUpdate<M>)
        ensures
            update == (BookUpdate {
                source: self.source,
                exch_ts: self.exch_ts,
                local_ts: self.local_ts,
                bids,
                asks,
                is_snapshot: self.is_snapshot,
            }),
    {
        BookUpdate {
            source: self.source,
            exch_ts: self.exch_ts,
            local_ts: self.local_ts,
            bids,
            asks,
            is_snapshot: self.is_snapshot,
        }
    }

    /// What the book stores for a level of this update with quantity `qty`, when
    /// the update is applied at `now`.
    pub open spec fn meta(self, qty: u64, now: i64) -> LevelMeta {
        LevelMeta {
            qty,
            source: self.source,
            last_exch_ts: self.exch_ts,
            last_local_ts: self.local_ts,
            delay_ns: now.wrapping_sub(self.exch_ts),
        }
    }

    /// What stands at `tick` once `levels` have been merged, at `now`, into a
    /// side where `before` stood there.
    ///
    /// A level that is as new as the update, or newer, stays. Otherwise the
    /// first quantity that the update gives, other than zero, is stored; where
    /// it gives zero alone the level is gone; where it gives nothing the level
    /// stays.
    pub open spec fn level_after(
        self,
        levels: Seq<PriceLevel>,
        before: Option<LevelMeta>,
        tick: u64,
        now: i64,
    ) -> Option<LevelMeta> {
        if before is Some && before->0.last_exch_ts >= self.exch_ts {
            before
        } else if first_quantity(levels, tick) is Some {
            Some(self.meta(first_quantity(levels, tick)->0, now))
        } else if mentions(levels, tick) {
            None
        } else {
            before
        }
    }

    /// A side of the book with `levels` merged into it at `now`.
    pub open spec fn merged(
        self,
        levels: Seq<PriceLevel>,
        side: Map<u64, LevelMeta>,
        now: i64,
    ) -> Map<u64, LevelMeta> {
        Map::new(
            |tick: u64| self.level_after(levels, side.get(tick), tick, now) is Some,
            |tick: u64| self.level_after(levels, side.get(tick), tick, now)->0,
        )
    }

    /// A side of the book after this update, which has `levels` for it and is
    /// applied at `now`: a snapshot with levels for the side replaces the side.
    pub open spec fn side_after(
        self,
        levels: Seq<PriceLevel>,
        side: Map<u64, LevelMeta>,
        now: i64,
    ) -> Map<u64, LevelMeta> {
        if self.is_snapshot && levels.len() > 0 {
            self.merged(levels, Map::empty(), now)
        } else {
            self.merged(levels, side, now)
        }
    }
}

/// Everything that a book holds.
#[verifier::ext_equal]
pub struct BookState {
    pub symbol: String,
    pub tick_size: u64,
    pub lot_size: u64,
    /// The bid side: price in ticks to level.
    pub bids: Map<u64, LevelMeta>,
    /// The ask side: price in ticks to level.
    pub asks: Map<u64, LevelMeta>,
    pub timings: Seq<TimingRecord>,
    pub last_source: Option<StreamSource>,
    pub last_exch_ts: i64,
    pub last_local_ts: i64,
    pub update_count: u64,
}

impl BookState {
    /// A book that has seen no update.
    pub open spec fn empty(symbol: String, tick_size: u64, lot_size: u64) -> BookState {
        BookState {
            symbol,
            tick_size,
            lot_size,
            bids: Map::empty(),
            asks: Map::empty(),
            timings: seq![],
            last_source: None,
            last_exch_ts: 0,
            last_local_ts: 0,
            update_count: 0,
        }
    }

    /// The book after `update`, applied at `now`, the timing log aside.
    pub open spec fn after(self, update: BookUpdate<PriceLevel>, now: i64) -> BookState {
        BookState {
            bids: update.side_after(update.bids@, self.bids, now),
            asks: update.side_after(update.asks@, self.asks, now),
            last_source: Some(update.source),
            last_exch_ts: update.exch_ts,
            last_local_ts: update.local_ts,
            update_count: self.update_count.wrapping_add(1),
            ..self
        }
    }

    /// The book with a timing record for `update` at the end of its log.
    pub open spec fn timed<L>(self, update: BookUpdate<L>, elapsed_ns: u128) -> BookState {
        BookState {
            timings: self.timings.push(
                TimingRecord {
                    elapsed_ns,
                    bids: update.bids.len() as u32,
                    asks: update.asks.len() as u32,
                    source: update.source,
                },
            ),
            ..self
        }
    }

    /// The book has become `after` by applying `update`: at a time that the wall
    /// clock was read at, with a timing record of a duration that the monotonic
    /// clock measured.
    pub open spec fn became(self, update: BookUpdate<PriceLevel>, after: BookState) -> bool {
        let elapsed_ns = after.timings.last().elapsed_ns;
        &&& exists|now: i64| #[trigger]
            call_ensures(now_nanos, (), now) && after == self.after(update, now).timed(
                update,
                elapsed_ns,
            )
        &&& exists|start: Instant| #[trigger]
            call_ensures(Instant::now, (), start) && measured_since(start, elapsed_ns)
    }
}

/// Maintains a local replica of the Binance order book by consuming updates
/// from multiple conflated streams, and tracks which stream each level came
/// from.
///
/// Bids are sorted descending (highest price first), asks ascending (lowest
/// price first). A quantity of zero signals that a level should be removed.
#[derive(Debug, Clone)]
pub struct LocalOrderBook {
    /// Trading pair, e.g. `"BTCUSDT"`.
    pub symbol: String,
    /// Tick size (minimum price increment), as the bit pattern of a
    /// double-precision number.
    pub tick_size: u64,
    /// Lot size (minimum quantity increment), as the bit pattern of a
    /// double-precision number.
    pub lot_size: u64,
    bids: BTreeMap<u64, LevelMeta>,
    asks: BTreeMap<u64, LevelMeta>,
    timing_log: Vec<TimingRecord>,
    last_update_source: Option<StreamSource>,
    last_exch_ts: i64,
    last_local_ts: i64,
    update_count: u64,
}

impl View for LocalOrderBook {
    type V = BookState;

    closed spec fn view(&self) -> BookState {
        BookState {
            symbol: self.symbol,
            tick_size: self.tick_size,
            lot_size: self.lot_size,
            bids: self.bids@,
            asks: self.asks@,
            timings: self.timing_log@,
            last_source: self.last_update_source,
            last_exch_ts: self.last_exch_ts,
            last_local_ts: self.last_local_ts,
            update_count: self.update_count,
        }
    }
}

/// What a book is of, and its grid, are what its fields say.
proof fn fields_of_a_book(book: LocalOrderBook)
    ensures
        book@.symbol == book.symbol,
        book@.tick_size == book.tick_size,
        book@.lot_size == book.lot_size,
{
}

/// Stores one level, unless what stands there is as new or newer.
fn store(side: &mut BTreeMap<u64, LevelMeta>, tick: u64, meta: LevelMeta)
    ensures
        final(side)@ == (if old(side)@.contains_key(tick) && old(side)@[tick].last_exch_ts
            >= meta.last_exch_ts {
            old(side)@
        } else if is_zero(meta.qty) {
            old(side)@.remove(tick)
        } else {
            old(side)@.insert(tick, meta)
        }),
{
    let stale = match side.get(&tick) {
        Some(stored) => stored.last_exch_ts >= meta.last_exch_ts,
        None => false,
    };
    if !stale {
        if meta.qty == 0 || meta.qty == 0x8000_0000_0000_0000 {
            side.remove(&tick);
        } else {
            side.insert(tick, meta);
        }
    }
}

/// Merges the levels that `update` has for a side into that side, at `now`.
fn store_levels(
    update: &BookUpdate<PriceLevel>,
    levels: &Vec<PriceLevel>,
    side: &mut BTreeMap<u64, LevelMeta>,
    now: i64,
)
    ensures
        final(side)@ == update.merged(levels@, old(side)@, now),
{
    assert(side@ =~= update.merged(levels@.take(0), old(side)@, now));
    for i in 0..levels.len()
        invariant
            side@ == update.merged(levels@.take(i as int), old(side)@, now),
    {
        let level = levels[i];
        let meta = LevelMeta {
            qty: level.qty,
            source: update.source,
            last_exch_ts: update.exch_ts,
            last_local_ts: update.local_ts,
            delay_ns: now.wrapping_sub(update.exch_ts),
        };
        store(side, level.price, meta);
        proof {
            assert(levels@.take(i + 1).drop_last() =~= levels@.take(i as int));
            assert(side@ =~= update.merged(levels@.take(i + 1), old(side)@, now));
        }
    }
    assert(levels@.take(levels.len() as int) =~= levels@);
}

/// `ticks` are the prices of `side`, each once, from the lowest to the highest.
pub open spec fn lists_ascending(ticks: Seq<u64>, side: Map<u64, LevelMeta>) -> bool {
    &&& forall|i: int, j: int| 0 <= i < j < ticks.len() ==> ticks[i] < ticks[j]
    &&& forall|i: int| 0 <= i < ticks.len() ==> side.contains_key(#[trigger] ticks[i])
    &&& forall|tick: u64| #[trigger] side.contains_key(tick) ==> ticks.contains(tick)
}

/// The prices of `side` from the lowest to the highest.
pub open spec fn ascending(side: Map<u64, LevelMeta>) -> Seq<u64> {
    choose|ticks: Seq<u64>| lists_ascending(ticks, side)
}

/// The levels of `side` at `ticks`, in that order.
pub open spec fn levels_at(ticks: Seq<u64>, side: Map<u64, LevelMeta>) -> Seq<PriceLevel> {
    ticks.map_values(|tick: u64| PriceLevel { price: tick, qty: side[tick].qty })
}

/// A side has only one list of its prices in ascending order.
pub proof fn ascending_is_unique(ticks: Seq<u64>, side: Map<u64, LevelMeta>)
    requires
        lists_ascending(ticks, side),
    ensures
        ascending(side) == ticks,
{
    lemma_same_list(ticks, ascending(side));
}

proof fn lemma_same_list(a: Seq<u64>, b: Seq<u64>)
    requires
        forall|i: int, j: int| 0 <= i < j < a.len() ==> a[i] < a[j],
        forall|i: int, j: int| 0 <= i < j < b.len() ==> b[i] < b[j],
        forall|t: u64| a.contains(t) <==> b.contains(t),
    ensures
        a == b,
    decreases a.len(),
{
    if a.len() == 0 {
        if b.len() > 0 {
            assert(b.contains(b[0]));
        }
        assert(a =~= b);
    } else {
        assert(a.contains(a.last()));
        assert(b.len() > 0);
        assert(b.contains(b.last()));
        let a0 = a.drop_last();
        let b0 = b.drop_last();
        assert(a.last() == b.last());
        assert forall|t: u64| a0.contains(t) <==> b0.contains(t) by {
            if a0.contains(t) {
                let i = a0.index_of(t);
                assert(a[i] == t);
                assert(a.contains(t));
                let j = b.index_of(t);
                assert(b0[j] == t);
            }
            if b0.contains(t) {
                let i = b0.index_of(t);
                assert(b[i] == t);
                assert(b.contains(t));
                let j = a.index_of(t);
                assert(a0[j] == t);
            }
        }
        lemma_same_list(a0, b0);
        assert(a =~= a0.push(a.last()));
        assert(b =~= b0.push(b.last()));
    }
}

/// The levels of a side with their prices, from the lowest to the highest.
fn entries(side: &BTreeMap<u64, LevelMeta>) -> (list: Vec<(u64, LevelMeta)>)
    ensures
        list@ == ascending(side@).map_values(|tick: u64| (tick, side@[tick])),
        lists_ascending(ascending(side@), side@),
        list.len() == side@.len(),
{
    let items = side.iter();
    let ghost all = items.remaining();
    let ghost ticks = all.map_values(|kv: (&u64, &LevelMeta)| *kv.0);
    proof {
        broadcast use vstd::std_specs::btree::group_btree_axioms;

        assert(increasing_seq(ticks));
        assert forall|i: int, j: int| 0 <= i < j < ticks.len() implies ticks[i] < ticks[j] by {
            assert(ticks[i].cmp_spec(&ticks[j]) is Less);
        }
        assert forall|tick: u64| #[trigger] side@.contains_key(tick) implies ticks.contains(tick) by {
            let i = all.index_of((&tick, &side@[tick]));
            assert(ticks[i] == tick);
        }
        assert forall|i: int| 0 <= i < ticks.len() implies side@.contains_key(#[trigger] ticks[i]) by {
            assert(ticks[i] == *all[i].0);
        }
        assert(lists_ascending(ticks, side@));
        ascending_is_unique(ticks, side@);
    }
    let mut list: Vec<(u64, LevelMeta)> = Vec::new();
    for entry in it: items
        invariant
            it.seq() == all,
            list.len() == it.index(),
            forall|i: int| 0 <= i < list.len() ==> #[trigger] list[i] == (*all[i].0, *all[i].1),
    {
        list.push((*entry.0, *entry.1));
    }
    proof {
        assert forall|i: int| 0 <= i < list.len() implies #[trigger] list[i] == (ticks[i], side@[ticks[i]]) by {
            assert(side@.contains_key(*all[i].0));
        }
        assert(list@ =~= ascending(side@).map_values(|tick: u64| (tick, side@[tick])));
    }
    list
}

/// `BTreeMap::last_key_value`: the entry with the highest key, if there is one.
#[verifier::external_body]
fn last_entry(side: &BTreeMap<u64, LevelMeta>) -> (entry: Option<(&u64, &LevelMeta)>)
    ensures
        match entry {
            Some((tick, meta)) => {
                &&& side@.contains_key(*tick)
                &&& side@[*tick] == *meta
                &&& forall|t: u64| #[trigger] side@.contains_key(t) ==> t <= *tick
            },
            None => side@ == Map::<u64, LevelMeta>::empty(),
        },
{
    side.last_key_value()
}

/// `BTreeMap::first_key_value`: the entry with the lowest key, if there is one.
#[verifier::external_body]
fn first_entry(side: &BTreeMap<u64, LevelMeta>) -> (entry: Option<(&u64, &LevelMeta)>)
    ensures
        match entry {
            Some((tick, meta)) => {
                &&& side@.contains_key(*tick)
                &&& side@[*tick] == *meta
                &&& forall|t: u64| #[trigger] side@.contains_key(t) ==> *tick <= t
            },
            None => side@ == Map::<u64, LevelMeta>::empty(),
        },
{
    side.first_key_value()
}

/// `level` is the level of `side` with the highest price, or there is none and
/// `side` is empty.
pub open spec fn is_highest(level: Option<PriceLevel>, side: Map<u64, LevelMeta>) -> bool {
    match level {
        Some(level) => {
            &&& side.contains_key(level.price)
            &&& side[level.price].qty == level.qty
            &&& forall|t: u64| #[trigger] side.contains_key(t) ==> t <= level.price
        },
        None => side == Map::<u64, LevelMeta>::empty(),
    }
}

/// `level` is the level of `side` with the lowest price, or there is none and
/// `side` is empty.
pub open spec fn is_lowest(level: Option<PriceLevel>, side: Map<u64, LevelMeta>) -> bool {
    match level {
        Some(level) => {
            &&& side.contains_key(level.price)
            &&& side[level.price].qty == level.qty
            &&& forall|t: u64| #[trigger] side.contains_key(t) ==> level.price <= t
        },
        None => side == Map::<u64, LevelMeta>::empty(),
    }
}

impl BookState {
    /// The stream that last wrote the level at a price: on the bid side if
    /// there is one, else on the ask side.
    pub open spec fn source_at(self, tick: u64) -> Option<StreamSource> {
        if self.bids.contains_key(tick) {
            Some(self.bids[tick].source)
        } else if self.asks.contains_key(tick) {
            Some(self.asks[tick].source)
        } else {
            None
        }
    }

    /// The book with nothing on either side, no last source and no timings.
    pub open spec fn cleared(self) -> BookState {
        BookState {
            bids: Map::empty(),
            asks: Map::empty(),
            last_source: None,
            timings: seq![],
            ..self
        }
    }
}

impl LocalOrderBook {
    /// Creates a new empty order book for `symbol`.
    pub fn new(symbol: impl Into<String>, tick_size: u64, lot_size: u64) -> (book: Self)
        ensures
            call_ensures(Into::into, (symbol,), book@.symbol),
            book@ == BookState::empty(book@.symbol, tick_size, lot_size),
    {
        LocalOrderBook {
            symbol: symbol.into(),
            tick_size,
            lot_size,
            bids: BTreeMap::new(),
            asks: BTreeMap::new(),
            timing_log: Vec::with_capacity(256),
            last_update_source: None,
            last_exch_ts: 0,
            last_local_ts: 0,
            update_count: 0,
        }
    }

    /// The bid with the highest price.
    pub fn best_bid(&self) -> (best: Option<PriceLevel>)
        ensures
            is_highest(best, self@.bids),
            match best {
                Some(level) => {
                    &&& self@.bids.contains_key(level.price)
                    &&& self@.bids[level.price].qty == level.qty
                    &&& forall|t: u64| #[trigger] self@.bids.contains_key(t) ==> t <= level.price
                },
                None => forall|t: u64| !#[trigger] self@.bids.contains_key(t),
            },
    {
        match last_entry(&self.bids) {
            Some((tick, meta)) => Some(PriceLevel { price: *tick, qty: meta.qty }),
            None => None,
        }
    }

    /// The ask with the lowest price.
    pub fn best_ask(&self) -> (best: Option<PriceLevel>)
        ensures
            is_lowest(best, self@.asks),
            match best {
                Some(level) => {
                    &&& self@.asks.contains_key(level.price)
                    &&& self@.asks[level.price].qty == level.qty
                    &&& forall|t: u64| #[trigger] self@.asks.contains_key(t) ==> level.price <= t
                },
                None => forall|t: u64| !#[trigger] self@.asks.contains_key(t),
            },
    {
        match first_entry(&self.asks) {
            Some((tick, meta)) => Some(PriceLevel { price: *tick, qty: meta.qty }),
            None => None,
        }
    }

    /// The bid levels with their prices, highest price first.
    pub(crate) fn bid_entries(&self) -> (list: Vec<(u64, LevelMeta)>)
        ensures
            list@ == ascending(self@.bids).reverse().map_values(
                |tick: u64| (tick, self@.bids[tick]),
            ),
            lists_ascending(ascending(self@.bids), self@.bids),
            list.len() == self@.bids.len(),
    {
        let rising = entries(&self.bids);
        let mut list: Vec<(u64, LevelMeta)> = Vec::new();
        for i in 0..rising.len()
            invariant
                list.len() == i,
                forall|j: int| 0 <= j < i ==> #[trigger] list[j] == rising[rising.len() - 1 - j],
        {
            list.push(rising[rising.len() - 1 - i]);
        }
        assert(list@ =~= ascending(self@.bids).reverse().map_values(
            |tick: u64| (tick, self@.bids[tick]),
        ));
        list
    }

    /// The ask levels with their prices, lowest price first.
    pub(crate) fn ask_entries(&self) -> (list: Vec<(u64, LevelMeta)>)
        ensures
            list@ == ascending(self@.asks).map_values(|tick: u64| (tick, self@.asks[tick])),
            lists_ascending(ascending(self@.asks), self@.asks),
            list.len() == self@.asks.len(),
    {
        entries(&self.asks)
    }

    /// All bids, highest price first.
    pub fn bids(&self) -> (levels: Vec<PriceLevel>)
        ensures
            levels@ == levels_at(ascending(self@.bids).reverse(), self@.bids),
            lists_ascending(ascending(self@.bids), self@.bids),
            levels.len() == self@.bids.len(),
            forall|i: int, j: int|
                0 <= i < j < levels.len() ==> (#[trigger] levels[i]).price > (
                #[trigger] levels[j]).price,
            forall|i: int|
                0 <= i < levels.len() ==> {
                    &&& self@.bids.contains_key((#[trigger] levels[i]).price)
                    &&& self@.bids[levels[i].price].qty == levels[i].qty
                },
            forall|tick: u64| #[trigger]
                self@.bids.contains_key(tick) ==> exists|i: int|
                    0 <= i < levels.len() && (#[trigger] levels[i]).price == tick,
    {
        let levels = levels_of(&self.bid_entries());
        assert(levels@ =~= levels_at(ascending(self@.bids).reverse(), self@.bids));
        proof {
            let ticks = ascending(self@.bids);
            assert forall|i: int| 0 <= i < levels.len() implies (#[trigger] levels[i]).price
                == ticks[ticks.len() - 1 - i] by {}
            assert forall|tick: u64| #[trigger] self@.bids.contains_key(tick) implies exists|i: int|
                0 <= i < levels.len() && (#[trigger] levels[i]).price == tick by {
                assert(ticks.contains(tick));
                let j = ticks.index_of(tick);
                assert(levels[ticks.len() - 1 - j].price == tick);
            }
        }
        levels
    }

    /// All asks, lowest price first.
    pub fn asks(&self) -> (levels: Vec<PriceLevel>)
        ensures
            levels@ == levels_at(ascending(self@.asks), self@.asks),
            lists_ascending(ascending(self@.asks), self@.asks),
            levels.len() == self@.asks.len(),
            forall|i: int, j: int|
                0 <= i < j < levels.len() ==> (#[trigger] levels[i]).price < (
                #[trigger] levels[j]).price,
            forall|i: int|
                0 <= i < levels.len() ==> {
                    &&& self@.asks.contains_key((#[trigger] levels[i]).price)
                    &&& self@.asks[levels[i].price].qty == levels[i].qty
                },
            forall|tick: u64| #[trigger]
                self@.asks.contains_key(tick) ==> exists|i: int|
                    0 <= i < levels.len() && (#[trigger] levels[i]).price == tick,
    {
        let levels = levels_of(&self.ask_entries());
        assert(levels@ =~= levels_at(ascending(self@.asks), self@.asks));
        proof {
            let ticks = ascending(self@.asks);
            assert forall|i: int| 0 <= i < levels.len() implies (#[trigger] levels[i]).price
                == ticks[i] by {}
            assert forall|tick: u64| #[trigger] self@.asks.contains_key(tick) implies exists|i: int|
                0 <= i < levels.len() && (#[trigger] levels[i]).price == tick by {
                assert(ticks.contains(tick));
                let j = ticks.index_of(tick);
                assert(levels[j].price == tick);
            }
        }
        levels
    }

    /// The stream source of the most recently applied update.
    pub fn last_source(&self) -> (source: Option<StreamSource>)
        ensures
            source == self@.last_source,
    {
        self.last_update_source
    }

    /// Total number of updates applied since the book was created.
    pub fn update_count(&self) -> (count: u64)
        ensures
            count == self@.update_count,
    {
        self.update_count
    }

    /// Which stream last updated the level at a price, given in ticks.
    pub fn source_at_price(&self, price: u64) -> (source: Option<StreamSource>)
        ensures
            source == self@.source_at(price),
    {
        match self.bids.get(&price) {
            Some(meta) => Some(meta.source),
            None => match self.asks.get(&price) {
                Some(meta) => Some(meta.source),
                None => None,
            },
        }
    }

    /// Applies an update to the local book, and logs how long that took.
    ///
    /// * Snapshot: clears the side or sides that it has levels for and inserts
    ///   the levels. For initial snapshots or periodic resyncs.
    /// * Incremental (diff): upserts bid and ask levels. A level with a
    ///   quantity of zero is removed.
    ///
    /// A level that was written at the same exchange time, or later, is left as
    /// it is.
    pub fn apply(&mut self, update: &BookUpdate<PriceLevel>)
        ensures
            old(self)@.became(*update, final(self)@),
    {
        let start = Instant::now();
        let now: i64 = now_nanos();
        self.apply_levels(update, now);
        let elapsed_ns = nanos_since(&start);
        self.log_timing(update, elapsed_ns);
        assert(call_ensures(Instant::now, (), start));
        assert(call_ensures(now_nanos, (), now));
    }

    /// Applies an update to the local book at `now`, in nanoseconds since the
    /// Unix epoch, without a timing record.
    pub fn apply_levels(&mut self, update: &BookUpdate<PriceLevel>, now: i64)
        ensures
            final(self)@ == old(self)@.after(*update, now),
    {
        self.last_update_source = Some(update.source);
        self.last_exch_ts = update.exch_ts;
        self.last_local_ts = update.local_ts;
        self.update_count = self.update_count.wrapping_add(1);
        if update.is_snapshot {
            if update.bids.len() > 0 {
                self.bids.clear();
            }
            if update.asks.len() > 0 {
                self.asks.clear();
            }
        }
        store_levels(update, &update.bids, &mut self.bids, now);
        store_levels(update, &update.asks, &mut self.asks, now);
    }

    /// Adds a timing record for an update to the log.
    pub fn log_timing<L>(&mut self, update: &BookUpdate<L>, elapsed_ns: u128)
        ensures
            final(self)@ == old(self)@.timed(*update, elapsed_ns),
    {
        self.timing_log.push(
            TimingRecord {
                elapsed_ns,
                bids: update.bids.len() as u32,
                asks: update.asks.len() as u32,
                source: update.source,
            },
        );
    }

    /// The trading pair.
    pub(crate) fn pair(&self) -> (pair: &str)
        ensures
            pair@ == self@.symbol@,
    {
        self.symbol.as_str()
    }

    /// Empties the timing log and returns what was in it.
    pub(crate) fn take_timings(&mut self) -> (log: Vec<TimingRecord>)
        ensures
            log@ == old(self)@.timings,
            final(self)@ == (BookState { timings: seq![], ..old(self)@ }),
    {
        let mut log: Vec<TimingRecord> = Vec::new();
        std::mem::swap(&mut log, &mut self.timing_log);
        log
    }

    /// Number of bid levels currently tracked.
    pub fn bid_depth(&self) -> (depth: usize)
        ensures
            depth == self@.bids.len(),
    {
        self.bids.len()
    }

    /// Number of ask levels currently tracked.
    pub fn ask_depth(&self) -> (depth: usize)
        ensures
            depth == self@.asks.len(),
    {
        self.asks.len()
    }

    /// Clears the entire book (e.g. before a reconnect and re-snapshot). The
    /// number of updates and the timestamps of the last one stay.
    pub fn clear(&mut self)
        ensures
            final(self)@ == old(self)@.cleared(),
    {
        self.bids.clear();
        self.asks.clear();
        self.last_update_source = None;
        self.timing_log.clear();
    }
}

fn levels_of(list: &Vec<(u64, LevelMeta)>) -> (levels: Vec<PriceLevel>)
    ensures
        levels.len() == list.len(),
        forall|i: int|
            0 <= i < list.len() ==> #[trigger] levels[i] == (PriceLevel {
                price: list[i].0,
                qty: list[i].1.qty,
            }),
{
    let mut levels: Vec<PriceLevel> = Vec::new();
    for i in 0..list.len()
        invariant
            levels.len() == i,
            forall|j: int|
                0 <= j < i ==> #[trigger] levels[j] == (PriceLevel {
                    price: list[j].0,
                    qty: list[j].1.qty,
                }),
    {
        levels.push(PriceLevel { price: list[i].0, qty: list[i].1.qty });
    }
    levels
}

} // verus!
