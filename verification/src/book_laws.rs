//! What an update does to the book, price by price, and what the book tells.

use std::time::Instant;
use vstd::prelude::*;
use crate::book::{
    ascending, ascending_is_unique, first_quantity, is_highest, is_lowest, levels_at,
    lists_ascending, BookState, BookUpdate, LevelMeta, PriceLevel,
};
use crate::clock::{measured_since, now_nanos};
use crate::laws::first_quantity_is_given;

verus! {

/// The first quantity other than zero is that of the first level at the price that
/// has one.
proof fn lemma_first_quantity_at(levels: Seq<PriceLevel>, tick: u64, i: int)
    requires
        0 <= i < levels.len(),
        levels[i].price == tick,
        levels[i].qty != 0 && levels[i].qty != 0x8000_0000_0000_0000,
        forall|j: int|
            0 <= j < i && (#[trigger] levels[j]).price == tick ==> levels[j].qty == 0
                || levels[j].qty == 0x8000_0000_0000_0000,
    ensures
        first_quantity(levels, tick) == Some(levels[i].qty),
    decreases levels.len(),
{
    let rest = levels.drop_last();
    if i < levels.len() - 1 {
        assert(rest[i] == levels[i]);
        assert forall|j: int| 0 <= j < i && (#[trigger] rest[j]).price == tick implies rest[j].qty
            == 0 || rest[j].qty == 0x8000_0000_0000_0000 by {
            assert(rest[j] == levels[j]);
        }
        lemma_first_quantity_at(rest, tick, i);
    } else {
        first_quantity_is_given(rest, tick);
        if first_quantity(rest, tick) is Some {
            let level = PriceLevel { price: tick, qty: first_quantity(rest, tick)->0 };
            let j = rest.index_of(level);
            assert(levels[j] == level);
        }
    }
}

/// A difference that wraps around is the difference, up to whole turns.
proof fn lemma_wraps(a: i64, b: i64)
    ensures
        (a.wrapping_sub(b) - (a - b)) % 0x1_0000_0000_0000_0000 == 0,
{
}

/// What stands at a price on the bid side after an update.
///
/// A snapshot with bids replaces the side: only what it gives counts, whatever
/// stood there before. Otherwise a level that is as new as the update, or newer,
/// stays, and so does one whose price the update does not mention. Where the
/// update counts, the first quantity other than zero that it gives for the price
/// is what stands there, with the stream and times of the update and the delay
/// since the exchange's time; where it gives zero alone, or where there is nothing
/// from either, nothing stands there.
pub proof fn bids_after_an_update(
    book: BookState,
    update: BookUpdate<PriceLevel>,
    now: i64,
    tick: u64,
)
    ensures
        ({
            let levels = update.bids@;
            let before = book.bids;
            let after = book.after(update, now).bids;
            let replaced = update.is_snapshot && levels.len() > 0;
            let stands = !replaced && before.contains_key(tick);
            let newer = stands ==> before[tick].last_exch_ts < update.exch_ts;
            let unmentioned = forall|i: int|
                0 <= i < levels.len() ==> (#[trigger] levels[i]).price != tick;
            let zeros = forall|i: int|
                0 <= i < levels.len() && (#[trigger] levels[i]).price == tick ==> levels[i].qty == 0
                    || levels[i].qty == 0x8000_0000_0000_0000;
            &&& stands && (!newer || unmentioned) ==> after.contains_key(tick) && after[tick]
                == before[tick]
            &&& !stands && unmentioned ==> !after.contains_key(tick)
            &&& newer && !unmentioned && zeros ==> !after.contains_key(tick)
            &&& newer ==> forall|i: int|
                {
                    &&& 0 <= i < levels.len()
                    &&& (#[trigger] levels[i]).price == tick
                    &&& levels[i].qty != 0 && levels[i].qty != 0x8000_0000_0000_0000
                    &&& forall|j: int|
                        0 <= j < i && (#[trigger] levels[j]).price == tick ==> levels[j].qty == 0
                            || levels[j].qty == 0x8000_0000_0000_0000
                } ==> {
                    &&& after.contains_key(tick)
                    &&& after[tick].qty == levels[i].qty
                    &&& after[tick].source == update.source
                    &&& after[tick].last_exch_ts == update.exch_ts
                    &&& after[tick].last_local_ts == update.local_ts
                    &&& (after[tick].delay_ns - (now - update.exch_ts)) % 0x1_0000_0000_0000_0000
                        == 0
                }
        }),
{
    let levels = update.bids@;
    first_quantity_is_given(levels, tick);
    assert forall|i: int|
        {
            &&& 0 <= i < levels.len()
            &&& (#[trigger] levels[i]).price == tick
            &&& levels[i].qty != 0 && levels[i].qty != 0x8000_0000_0000_0000
            &&& forall|j: int|
                0 <= j < i && (#[trigger] levels[j]).price == tick ==> levels[j].qty == 0
                    || levels[j].qty == 0x8000_0000_0000_0000
        } implies first_quantity(levels, tick) == Some(levels[i].qty) by {
        lemma_first_quantity_at(levels, tick, i);
    }
    lemma_wraps(now, update.exch_ts);
}

/// What stands at a price on the ask side after an update.
///
/// A snapshot with asks replaces the side: only what it gives counts, whatever
/// stood there before. Otherwise a level that is as new as the update, or newer,
/// stays, and so does one whose price the update does not mention. Where the
/// update counts, the first quantity other than zero that it gives for the price
/// is what stands there, with the stream and times of the update and the delay
/// since the exchange's time; where it gives zero alone, or where there is nothing
/// from either, nothing stands there.
pub proof fn asks_after_an_update(
    book: BookState,
    update: BookUpdate<PriceLevel>,
    now: i64,
    tick: u64,
)
    ensures
        ({
            let levels = update.asks@;
            let before = book.asks;
            let after = book.after(update, now).asks;
            let replaced = update.is_snapshot && levels.len() > 0;
            let stands = !replaced && before.contains_key(tick);
            let newer = stands ==> before[tick].last_exch_ts < update.exch_ts;
            let unmentioned = forall|i: int|
                0 <= i < levels.len() ==> (#[trigger] levels[i]).price != tick;
            let zeros = forall|i: int|
                0 <= i < levels.len() && (#[trigger] levels[i]).price == tick ==> levels[i].qty == 0
                    || levels[i].qty == 0x8000_0000_0000_0000;
            &&& stands && (!newer || unmentioned) ==> after.contains_key(tick) && after[tick]
                == before[tick]
            &&& !stands && unmentioned ==> !after.contains_key(tick)
            &&& newer && !unmentioned && zeros ==> !after.contains_key(tick)
            &&& newer ==> forall|i: int|
                {
                    &&& 0 <= i < levels.len()
                    &&& (#[trigger] levels[i]).price == tick
                    &&& levels[i].qty != 0 && levels[i].qty != 0x8000_0000_0000_0000
                    &&& forall|j: int|
                        0 <= j < i && (#[trigger] levels[j]).price == tick ==> levels[j].qty == 0
                            || levels[j].qty == 0x8000_0000_0000_0000
                } ==> {
                    &&& after.contains_key(tick)
                    &&& after[tick].qty == levels[i].qty
                    &&& after[tick].source == update.source
                    &&& after[tick].last_exch_ts == update.exch_ts
                    &&& after[tick].last_local_ts == update.local_ts
                    &&& (after[tick].delay_ns - (now - update.exch_ts)) % 0x1_0000_0000_0000_0000
                        == 0
                }
        }),
{
    let levels = update.asks@;
    first_quantity_is_given(levels, tick);
    assert forall|i: int|
        {
            &&& 0 <= i < levels.len()
            &&& (#[trigger] levels[i]).price == tick
            &&& levels[i].qty != 0 && levels[i].qty != 0x8000_0000_0000_0000
            &&& forall|j: int|
                0 <= j < i && (#[trigger] levels[j]).price == tick ==> levels[j].qty == 0
                    || levels[j].qty == 0x8000_0000_0000_0000
        } implies first_quantity(levels, tick) == Some(levels[i].qty) by {
        lemma_first_quantity_at(levels, tick, i);
    }
    lemma_wraps(now, update.exch_ts);
}

/// An update leaves its stream and its times as the last ones, is counted, and
/// touches neither what the book is of nor its log.
pub proof fn book_after_an_update(book: BookState, update: BookUpdate<PriceLevel>, now: i64)
    ensures
        ({
            let after = book.after(update, now);
            &&& after.symbol == book.symbol
            &&& after.tick_size == book.tick_size
            &&& after.lot_size == book.lot_size
            &&& after.timings == book.timings
            &&& after.last_source == Some(update.source)
            &&& after.last_exch_ts == update.exch_ts
            &&& after.last_local_ts == update.local_ts
            &&& book.update_count < u64::MAX ==> after.update_count == book.update_count + 1
            &&& book.update_count == u64::MAX ==> after.update_count == 0
        }),
{
}

/// A timing record goes to the end of the log: how long it took, how many levels
/// the update has a side, and its stream. Nothing else changes.
pub proof fn book_after_a_timing<L>(book: BookState, update: BookUpdate<L>, elapsed_ns: u128)
    ensures
        ({
            let after = book.timed(update, elapsed_ns);
            let record = after.timings.last();
            &&& after == (BookState { timings: after.timings, ..book })
            &&& after.timings.len() == book.timings.len() + 1
            &&& forall|i: int|
                0 <= i < book.timings.len() ==> #[trigger] after.timings[i] == book.timings[i]
            &&& record.elapsed_ns == elapsed_ns
            &&& record.source == update.source
            &&& update.bids@.len() <= u32::MAX ==> record.bids == update.bids@.len()
            &&& update.asks@.len() <= u32::MAX ==> record.asks == update.asks@.len()
        }),
{
}

/// To apply an update is to change both sides as of one reading of the wall clock,
/// and to log it with a time that was measured; the rest is as for any update.
pub proof fn apply_changes_and_logs(
    book: BookState,
    update: BookUpdate<PriceLevel>,
    after: BookState,
)
    requires
        book.became(update, after),
    ensures
        exists|now: i64|
            {
                &&& #[trigger] call_ensures(now_nanos, (), now)
                &&& after.bids == book.after(update, now).bids
                &&& after.asks == book.after(update, now).asks
                &&& after.last_source == book.after(update, now).last_source
                &&& after.last_exch_ts == book.after(update, now).last_exch_ts
                &&& after.last_local_ts == book.after(update, now).last_local_ts
                &&& after.update_count == book.after(update, now).update_count
            },
        exists|start: Instant|
            {
                &&& #[trigger] call_ensures(Instant::now, (), start)
                &&& measured_since(start, after.timings.last().elapsed_ns)
            },
        after.symbol == book.symbol,
        after.tick_size == book.tick_size,
        after.lot_size == book.lot_size,
        after.timings.len() == book.timings.len() + 1,
        forall|i: int| 0 <= i < book.timings.len() ==> #[trigger] after.timings[i] == book.timings[i],
        after.timings.last().source == update.source,
        update.bids@.len() <= u32::MAX ==> after.timings.last().bids == update.bids@.len(),
        update.asks@.len() <= u32::MAX ==> after.timings.last().asks == update.asks@.len(),
{
    let now = choose|now: i64| #[trigger]
        call_ensures(now_nanos, (), now) && after == book.after(update, now).timed(
            update,
            after.timings.last().elapsed_ns,
        );
    assert(call_ensures(now_nanos, (), now));
}

/// A new book has nothing in it.
pub proof fn new_book_is_empty(symbol: String, tick_size: u64, lot_size: u64, tick: u64)
    ensures
        ({
            let book = BookState::empty(symbol, tick_size, lot_size);
            &&& book.symbol == symbol && book.tick_size == tick_size && book.lot_size == lot_size
            &&& !book.bids.contains_key(tick) && !book.asks.contains_key(tick)
            &&& book.bids.len() == 0 && book.asks.len() == 0
            &&& book.timings.len() == 0
            &&& book.last_source is None
            &&& book.last_exch_ts == 0 && book.last_local_ts == 0 && book.update_count == 0
        }),
{
}

/// A book that was cleared has no level on either side, no last stream and no log.
/// What it is of, the count and the times of the last update stay.
pub proof fn cleared_book_keeps_the_count(book: BookState, tick: u64)
    ensures
        ({
            let after = book.cleared();
            &&& !after.bids.contains_key(tick) && !after.asks.contains_key(tick)
            &&& after.bids.len() == 0 && after.asks.len() == 0
            &&& after.last_source is None
            &&& after.timings.len() == 0
            &&& after.symbol == book.symbol
            &&& after.tick_size == book.tick_size && after.lot_size == book.lot_size
            &&& after.last_exch_ts == book.last_exch_ts
            &&& after.last_local_ts == book.last_local_ts
            &&& after.update_count == book.update_count
        }),
{
}

/// The stream told for a price is that of the level that stands there: of the bid
/// where there is one, else of the ask; and of nothing else in the book.
pub proof fn stream_told_is_that_of_the_level(book: BookState, tick: u64)
    ensures
        book.bids.contains_key(tick) ==> book.source_at(tick) == Some(book.bids[tick].source),
        !book.bids.contains_key(tick) && book.asks.contains_key(tick) ==> book.source_at(tick)
            == Some(book.asks[tick].source),
        !book.bids.contains_key(tick) && !book.asks.contains_key(tick) ==> book.source_at(
            tick,
        ) is None,
{
}

/// Two books with the same levels at a price tell the same stream for it.
pub proof fn stream_told_goes_by_the_levels_alone(a: BookState, b: BookState, tick: u64)
    requires
        a.bids.contains_key(tick) == b.bids.contains_key(tick),
        a.asks.contains_key(tick) == b.asks.contains_key(tick),
        a.bids.contains_key(tick) ==> a.bids[tick] == b.bids[tick],
        a.asks.contains_key(tick) ==> a.asks[tick] == b.asks[tick],
    ensures
        a.source_at(tick) == b.source_at(tick),
{
}

/// An update that does not mention a price, and does not replace a side, leaves the
/// stream told for that price as it was; so does one that is no newer than the
/// levels there.
pub proof fn untouched_price_keeps_its_stream(
    book: BookState,
    update: BookUpdate<PriceLevel>,
    now: i64,
    tick: u64,
)
    requires
        update.is_snapshot ==> update.bids@.len() == 0 && update.asks@.len() == 0,
        (forall|i: int| 0 <= i < update.bids@.len() ==> (#[trigger] update.bids@[i]).price != tick)
            || (book.bids.contains_key(tick) && book.bids[tick].last_exch_ts >= update.exch_ts),
        (forall|i: int| 0 <= i < update.asks@.len() ==> (#[trigger] update.asks@[i]).price != tick)
            || (book.asks.contains_key(tick) && book.asks[tick].last_exch_ts >= update.exch_ts),
    ensures
        book.after(update, now).source_at(tick) == book.source_at(tick),
{
    bids_after_an_update(book, update, now, tick);
    asks_after_an_update(book, update, now, tick);
}

/// The levels of a side in order are all of its levels, each once and with its
/// quantity, and their prices rise.
pub proof fn levels_in_order_are_all_levels(ticks: Seq<u64>, side: Map<u64, LevelMeta>)
    requires
        forall|i: int, j: int| 0 <= i < j < ticks.len() ==> ticks[i] < ticks[j],
        forall|i: int| 0 <= i < ticks.len() ==> side.contains_key(#[trigger] ticks[i]),
        forall|tick: u64| #[trigger] side.contains_key(tick) ==> ticks.contains(tick),
    ensures
        ascending(side) == ticks,
        levels_at(ticks, side).len() == ticks.len(),
        forall|i: int|
            0 <= i < ticks.len() ==> {
                &&& (#[trigger] levels_at(ticks, side)[i]).price == ticks[i]
                &&& levels_at(ticks, side)[i].qty == side[ticks[i]].qty
            },
{
    assert(lists_ascending(ticks, side));
    ascending_is_unique(ticks, side);
}

/// The best bid has the highest price of all bids, and the best ask the lowest of
/// all asks, with the quantity that stands there.
pub proof fn best_prices_are_the_ends(
    best: Option<PriceLevel>,
    side: Map<u64, LevelMeta>,
    tick: u64,
)
    ensures
        is_highest(best, side) && side.contains_key(tick) ==> best is Some && tick <= best->0.price,
        is_lowest(best, side) && side.contains_key(tick) ==> best is Some && best->0.price <= tick,
        (is_highest(best, side) || is_lowest(best, side)) && best is Some ==> side.contains_key(
            best->0.price,
        ) && side[best->0.price].qty == best->0.qty,
{
}

} // verus!
