//! What holds of the book whatever updates it is given.

use vstd::prelude::*;
use crate::book::{
    first_quantity, is_highest, is_lowest, is_zero, levels_at, lists_ascending, mentions,
    BookState, BookUpdate, LevelMeta, PriceLevel, TimingRecord,
};
use crate::parse::{message_of, Message};
use crate::report::{timing_line, timing_lines};
use crate::source::StreamSource;
use crate::text::{decimal, pad_left};

verus! {

/// The update replaces the side that it has `levels` for.
pub open spec fn replaces(
    update: BookUpdate<PriceLevel>,
    levels: Seq<PriceLevel>,
) -> bool {
    update.is_snapshot && levels.len() > 0
}

/// `side` has a level at `tick` that is as new as `update`, or newer.
pub open spec fn up_to_date(
    side: Map<u64, LevelMeta>,
    tick: u64,
    update: BookUpdate<PriceLevel>,
) -> bool {
    side.contains_key(tick) && side[tick].last_exch_ts >= update.exch_ts
}

/// A quantity that an update gives is the quantity of one of its levels, and
/// not zero. Where it gives none, its levels at the price are all zero.
pub proof fn first_quantity_is_given(levels: Seq<PriceLevel>, tick: u64)
    ensures
        match first_quantity(levels, tick) {
            Some(qty) => {
                &&& !is_zero(qty)
                &&& levels.contains(PriceLevel { price: tick, qty })
                &&& mentions(levels, tick)
            },
            None => forall|i: int|
                0 <= i < levels.len() && (#[trigger] levels[i]).price == tick ==> is_zero(
                    levels[i].qty,
                ),
        },
    decreases levels.len(),
{
    if levels.len() > 0 {
        let rest = levels.drop_last();
        first_quantity_is_given(rest, tick);
        assert forall|i: int| 0 <= i < rest.len() implies levels[i] == #[trigger] rest[i] by {}
        match first_quantity(rest, tick) {
            Some(qty) => {
                let i = rest.index_of(PriceLevel { price: tick, qty });
                assert(levels[i] == (PriceLevel { price: tick, qty }));
            },
            None => {
                if levels.last().price == tick && !is_zero(levels.last().qty) {
                    assert(levels[levels.len() - 1] == (PriceLevel {
                        price: tick,
                        qty: levels.last().qty,
                    }));
                }
                assert forall|i: int|
                    0 <= i < levels.len() && (#[trigger] levels[i]).price == tick && i
                        < levels.len() - 1 implies is_zero(levels[i].qty) by {
                    assert(rest[i] == levels[i]);
                }
            },
        }
    }
}

/// A stale write is dropped: a level that is as new as a diff, or newer, is
/// left as it is.
pub proof fn stale_write_is_dropped(
    update: BookUpdate<PriceLevel>,
    levels: Seq<PriceLevel>,
    side: Map<u64, LevelMeta>,
    tick: u64,
    now: i64,
)
    requires
        !replaces(update, levels),
        up_to_date(side, tick, update),
    ensures
        update.side_after(levels, side, now).contains_key(tick),
        update.side_after(levels, side, now)[tick] == side[tick],
{
}

/// A level that an update is newer than takes the first quantity other than
/// zero that the update gives for it, tagged with the stream and the times of
/// the update; so does a price where the book has no level.
pub proof fn fresh_write_is_stored(
    update: BookUpdate<PriceLevel>,
    levels: Seq<PriceLevel>,
    side: Map<u64, LevelMeta>,
    tick: u64,
    now: i64,
)
    requires
        replaces(update, levels) || !up_to_date(side, tick, update),
        first_quantity(levels, tick) is Some,
    ensures
        update.side_after(levels, side, now).contains_key(tick),
        update.side_after(levels, side, now)[tick] == update.meta(first_quantity(levels, tick)->0, now),
{
}

/// A level that an update is newer than, and gives a quantity of zero alone
/// for, is removed.
pub proof fn zero_quantity_removes(
    update: BookUpdate<PriceLevel>,
    levels: Seq<PriceLevel>,
    side: Map<u64, LevelMeta>,
    tick: u64,
    now: i64,
)
    requires
        replaces(update, levels) || !up_to_date(side, tick, update),
        mentions(levels, tick),
        forall|i: int|
            0 <= i < levels.len() && (#[trigger] levels[i]).price == tick ==> is_zero(levels[i].qty),
    ensures
        !update.side_after(levels, side, now).contains_key(tick),
{
    first_quantity_is_given(levels, tick);
}

/// A diff leaves the levels alone that it does not mention.
pub proof fn unmentioned_level_stays(
    update: BookUpdate<PriceLevel>,
    levels: Seq<PriceLevel>,
    side: Map<u64, LevelMeta>,
    tick: u64,
    now: i64,
)
    requires
        !replaces(update, levels),
        !mentions(levels, tick),
    ensures
        update.side_after(levels, side, now).get(tick) == side.get(tick),
{
    first_quantity_is_given(levels, tick);
}

/// A snapshot replaces a side that it has levels for: what stood there before
/// makes no difference, and every level comes from the snapshot.
pub proof fn snapshot_replaces_side(
    update: BookUpdate<PriceLevel>,
    levels: Seq<PriceLevel>,
    side: Map<u64, LevelMeta>,
    other: Map<u64, LevelMeta>,
    now: i64,
)
    requires
        replaces(update, levels),
    ensures
        update.side_after(levels, side, now) == update.side_after(levels, other, now),
        forall|tick: u64| #[trigger]
            update.side_after(levels, side, now).contains_key(tick) ==> {
                &&& levels.contains(PriceLevel { price: tick, qty: update.side_after(levels, side, now)[tick].qty })
                &&& update.side_after(levels, side, now)[tick].source == update.source
            },
{
    assert forall|tick: u64| #[trigger] update.side_after(levels, side, now).contains_key(tick) implies {
        &&& levels.contains(PriceLevel { price: tick, qty: update.side_after(levels, side, now)[tick].qty })
        &&& update.side_after(levels, side, now)[tick].source == update.source
    } by {
        first_quantity_is_given(levels, tick);
    }
}

/// An update with no levels for a side leaves that side alone, snapshot or not.
pub proof fn empty_side_is_kept(
    update: BookUpdate<PriceLevel>,
    side: Map<u64, LevelMeta>,
    now: i64,
)
    ensures
        update.side_after(seq![], side, now) == side,
{
    assert(update.side_after(seq![], side, now) =~= side);
}

/// After a diff, a level that was there before is at least as new as it was.
pub proof fn levels_only_get_newer(
    update: BookUpdate<PriceLevel>,
    levels: Seq<PriceLevel>,
    side: Map<u64, LevelMeta>,
    tick: u64,
    now: i64,
)
    requires
        !replaces(update, levels),
        side.contains_key(tick),
        update.side_after(levels, side, now).contains_key(tick),
    ensures
        update.side_after(levels, side, now)[tick].last_exch_ts >= side[tick].last_exch_ts,
{
}

/// What a level holds besides the delay, which goes by when it was applied.
pub struct Stored {
    pub qty: u64,
    pub source: StreamSource,
    pub last_exch_ts: i64,
    pub last_local_ts: i64,
}

/// What a level holds besides the delay.
pub open spec fn stored(level: LevelMeta) -> Stored {
    Stored {
        qty: level.qty,
        source: level.source,
        last_exch_ts: level.last_exch_ts,
        last_local_ts: level.last_local_ts,
    }
}

/// Two levels hold the same besides the delay, or there is neither.
pub open spec fn alike(a: Option<LevelMeta>, b: Option<LevelMeta>) -> bool {
    match (a, b) {
        (Some(a), Some(b)) => stored(a) == stored(b),
        (None, None) => true,
        _ => false,
    }
}

/// To apply an update a second time changes neither side of the book: not at all
/// where it is a diff, and in nothing but the delays where it is a snapshot.
pub proof fn applying_twice_is_applying_once(
    book: BookState,
    update: BookUpdate<PriceLevel>,
    first: i64,
    second: i64,
    bids: bool,
    tick: u64,
)
    ensures
        alike(
            side_of(book.after(update, first).after(update, second), bids).get(tick),
            side_of(book.after(update, first), bids).get(tick),
        ),
        !update.is_snapshot ==> side_of(book.after(update, first).after(update, second), bids)
            == side_of(book.after(update, first), bids),
{
    let once = side_of(book.after(update, first), bids);
    if !update.is_snapshot {
        assert(side_of(book.after(update, first).after(update, second), bids) =~= once);
    }
}

impl BookState {
    /// The book after all of `updates`, one after the other, the first applied at
    /// `nows[0]`, the second at `nows[1]`, and so on.
    pub open spec fn after_all(
        self,
        updates: Seq<BookUpdate<PriceLevel>>,
        nows: Seq<i64>,
    ) -> BookState
        decreases updates.len(),
    {
        if updates.len() == 0 {
            self
        } else {
            self.after_all(updates.drop_last(), nows).after(
                updates.last(),
                nows[updates.len() - 1],
            )
        }
    }
}

/// Every update is counted. The count starts again at zero after it has reached
/// its greatest value.
pub proof fn every_update_is_counted(
    book: BookState,
    updates: Seq<BookUpdate<PriceLevel>>,
    nows: Seq<i64>,
)
    ensures
        book.after_all(updates, nows).update_count == (book.update_count + updates.len())
            % 0x1_0000_0000_0000_0000,
    decreases updates.len(),
{
    if updates.len() > 0 {
        every_update_is_counted(book, updates.drop_last(), nows);
    }
}

/// The timing record of an update that took `elapsed_ns` to apply.
pub open spec fn record_for(update: BookUpdate<PriceLevel>, elapsed_ns: u128) -> TimingRecord {
    TimingRecord {
        elapsed_ns,
        bids: update.bids.len() as u32,
        asks: update.asks.len() as u32,
        source: update.source,
    }
}

/// The line of the log for an update that took `elapsed_ns` to apply.
pub open spec fn line_for(update: BookUpdate<PriceLevel>, elapsed_ns: u128) -> Seq<char> {
    "[apply] "@ + pad_left(decimal(elapsed_ns as nat), 6) + " ns  |  "@ + decimal(
        update.bids@.len(),
    ) + " bids, "@ + decimal(update.asks@.len()) + " asks  |  source="@ + update.source.label()
        + "\n"@
}

/// The lines of the log for updates that took so long each to apply, one after
/// the other.
pub open spec fn lines_for(
    updates: Seq<BookUpdate<PriceLevel>>,
    elapsed_ns: Seq<u128>,
) -> Seq<char>
    decreases updates.len(),
{
    if updates.len() == 0 {
        seq![]
    } else {
        lines_for(updates.drop_last(), elapsed_ns) + line_for(
            updates.last(),
            elapsed_ns[updates.len() - 1],
        )
    }
}

/// The book went through `books` as `updates` were applied to it, one after the
/// other, which took `elapsed_ns` each.
pub open spec fn applied_in_turn(
    books: Seq<BookState>,
    updates: Seq<BookUpdate<PriceLevel>>,
    elapsed_ns: Seq<u128>,
) -> bool {
    &&& books.len() == updates.len() + 1
    &&& elapsed_ns.len() == updates.len()
    &&& forall|i: int|
        0 <= i < updates.len() ==> {
            &&& #[trigger] books[i].became(updates[i], books[i + 1])
            &&& books[i + 1].timings.last().elapsed_ns == elapsed_ns[i]
        }
}

/// Updates with fewer levels a side than a timing record can count.
pub open spec fn countable(updates: Seq<BookUpdate<PriceLevel>>) -> bool {
    forall|i: int|
        0 <= i < updates.len() ==> (#[trigger] updates[i]).bids@.len() <= u32::MAX
            && updates[i].asks@.len() <= u32::MAX
}

/// The log has one record for each update that was applied since it was empty, in
/// the order of the calls, and a flush writes one line for each, in that order.
pub proof fn log_has_every_apply_in_order(
    books: Seq<BookState>,
    updates: Seq<BookUpdate<PriceLevel>>,
    elapsed_ns: Seq<u128>,
)
    requires
        applied_in_turn(books, updates, elapsed_ns),
        books[0].timings.len() == 0,
    ensures
        books.last().timings == Seq::new(
            updates.len(),
            |i: int| record_for(updates[i], elapsed_ns[i]),
        ),
        countable(updates) ==> timing_lines(books.last().timings) == lines_for(updates, elapsed_ns),
    decreases updates.len(),
{
    let log = Seq::new(updates.len(), |i: int| record_for(updates[i], elapsed_ns[i]));
    if updates.len() == 0 {
        assert(books.last().timings =~= log);
    } else {
        let n = updates.len() - 1;
        let rest = updates.drop_last();
        let earlier = books.drop_last();
        let times = elapsed_ns.drop_last();
        assert forall|i: int| 0 <= i < rest.len() implies {
            &&& #[trigger] earlier[i].became(rest[i], earlier[i + 1])
            &&& earlier[i + 1].timings.last().elapsed_ns == times[i]
        } by {
            assert(books[i].became(updates[i], books[i + 1]));
        }
        log_has_every_apply_in_order(earlier, rest, times);
        assert(books[n].became(updates[n], books[n + 1]));
        assert(books.last().timings =~= books[n].timings.push(record_for(updates[n], elapsed_ns[n])));
        assert(books.last().timings =~= log);
        assert(books.last().timings.drop_last() =~= books[n].timings);
        if countable(updates) {
            assert(countable(rest)) by {
                assert forall|i: int| 0 <= i < rest.len() implies (#[trigger] rest[i]).bids@.len()
                    <= u32::MAX && rest[i].asks@.len() <= u32::MAX by {
                    assert(rest[i] == updates[i]);
                }
            }
            lemma_lines_go_by_their_own_times(rest, times, elapsed_ns);
            assert(updates[n] == updates.last());
            assert(timing_line(record_for(updates[n], elapsed_ns[n])) == line_for(
                updates[n],
                elapsed_ns[n],
            ));
        }
    }
}

proof fn lemma_lines_go_by_their_own_times(
    updates: Seq<BookUpdate<PriceLevel>>,
    a: Seq<u128>,
    b: Seq<u128>,
)
    requires
        forall|i: int| 0 <= i < updates.len() ==> a[i] == b[i],
    ensures
        lines_for(updates, a) == lines_for(updates, b),
    decreases updates.len(),
{
    if updates.len() > 0 {
        lemma_lines_go_by_their_own_times(updates.drop_last(), a, b);
    }
}

/// The log of a new book is empty, and so is that of a book that was cleared.
pub proof fn log_starts_empty(symbol: String, tick_size: u64, lot_size: u64, book: BookState)
    ensures
        BookState::empty(symbol, tick_size, lot_size).timings.len() == 0,
        book.cleared().timings.len() == 0,
{
}

/// The levels that an update has for one side of the book.
pub open spec fn levels_for(update: BookUpdate<PriceLevel>, bids: bool) -> Seq<PriceLevel> {
    if bids {
        update.bids@
    } else {
        update.asks@
    }
}

/// One side of the book.
pub open spec fn side_of(book: BookState, bids: bool) -> Map<u64, LevelMeta> {
    if bids {
        book.bids
    } else {
        book.asks
    }
}

/// `updates[i]` writes a level at `tick`: it gives a quantity other than zero.
pub open spec fn writes(
    updates: Seq<BookUpdate<PriceLevel>>,
    i: int,
    bids: bool,
    tick: u64,
) -> bool {
    0 <= i < updates.len() && first_quantity(levels_for(updates[i], bids), tick) is Some
}

/// `updates[i]` removes the level at `tick`: it gives a quantity of zero alone.
pub open spec fn removes(
    updates: Seq<BookUpdate<PriceLevel>>,
    i: int,
    bids: bool,
    tick: u64,
) -> bool {
    &&& 0 <= i < updates.len()
    &&& mentions(levels_for(updates[i], bids), tick)
    &&& first_quantity(levels_for(updates[i], bids), tick) is None
}

/// What an update that writes a level at `tick` stores there at `now`.
pub open spec fn written(
    update: BookUpdate<PriceLevel>,
    bids: bool,
    tick: u64,
    now: i64,
) -> LevelMeta {
    update.meta(first_quantity(levels_for(update, bids), tick)->0, now)
}

/// The update is newer than the level, or there is none.
pub open spec fn outdates(update: BookUpdate<PriceLevel>, level: Option<LevelMeta>) -> bool {
    level is Some ==> level->0.last_exch_ts < update.exch_ts
}

/// `updates[k]` writes the level at `tick`, and none of the updates that do is newer.
pub open spec fn is_newest(
    updates: Seq<BookUpdate<PriceLevel>>,
    k: int,
    bids: bool,
    tick: u64,
) -> bool {
    &&& writes(updates, k, bids, tick)
    &&& forall|i: int| #[trigger]
        writes(updates, i, bids, tick) ==> updates[i].exch_ts <= updates[k].exch_ts
}

/// `level` is what the newest word on `tick` leaves there, where `before` is what
/// stood there before the updates. That word is the newest write, if one of the
/// writes is newer than `before`. If none is, a removal that is newer leaves
/// nothing, and otherwise `before` stays.
pub open spec fn is_settled(
    level: Option<LevelMeta>,
    before: Option<LevelMeta>,
    updates: Seq<BookUpdate<PriceLevel>>,
    nows: Seq<i64>,
    bids: bool,
    tick: u64,
) -> bool {
    if exists|i: int| #[trigger] writes(updates, i, bids, tick) && outdates(updates[i], before) {
        exists|k: int| #[trigger]
            is_newest(updates, k, bids, tick) && outdates(updates[k], before) && level == Some(
                written(updates[k], bids, tick, nows[k]),
            )
    } else if exists|i: int| #[trigger]
        removes(updates, i, bids, tick) && outdates(updates[i], before) {
        level is None
    } else {
        level == before
    }
}

/// The updates are diffs.
pub open spec fn diffs(updates: Seq<BookUpdate<PriceLevel>>) -> bool {
    forall|i: int| 0 <= i < updates.len() ==> !(#[trigger] updates[i]).is_snapshot
}

/// No write at `tick` is older than a removal there.
pub open spec fn removals_are_older(
    updates: Seq<BookUpdate<PriceLevel>>,
    bids: bool,
    tick: u64,
) -> bool {
    forall|i: int, j: int| #[trigger]
        removes(updates, i, bids, tick) && #[trigger] writes(updates, j, bids, tick)
            ==> updates[i].exch_ts <= updates[j].exch_ts
}

/// The newest write wins: whatever streams the diffs come from, and in whatever
/// order they arrive, a level ends up as the newest of them has it. This holds
/// at every price where no write is older than a removal. (A removal leaves no
/// time behind, so an older write that arrives after it brings the level back.)
pub proof fn newest_write_wins(
    book: BookState,
    updates: Seq<BookUpdate<PriceLevel>>,
    nows: Seq<i64>,
    bids: bool,
    tick: u64,
)
    requires
        diffs(updates),
        removals_are_older(updates, bids, tick),
    ensures
        is_settled(
            side_of(book.after_all(updates, nows), bids).get(tick),
            side_of(book, bids).get(tick),
            updates,
            nows,
            bids,
            tick,
        ),
    decreases updates.len(),
{
    if updates.len() > 0 {
        let rest = updates.drop_last();
        let last = updates.last();
        let n = updates.len() - 1;
        assert forall|i: int| 0 <= i < rest.len() implies !(#[trigger] rest[i]).is_snapshot by {
            assert(rest[i] == updates[i]);
        }
        assert forall|i: int| #[trigger]
            writes(rest, i, bids, tick) == (i < n && writes(updates, i, bids, tick)) by {}
        assert forall|i: int| #[trigger]
            removes(rest, i, bids, tick) == (i < n && removes(updates, i, bids, tick)) by {}
        newest_write_wins(book, rest, nows, bids, tick);
        first_quantity_is_given(levels_for(last, bids), tick);
        lemma_one_more(
            updates,
            nows,
            side_of(book, bids).get(tick),
            side_of(book.after_all(rest, nows), bids).get(tick),
            bids,
            tick,
        );
    }
}

proof fn lemma_one_more(
    updates: Seq<BookUpdate<PriceLevel>>,
    nows: Seq<i64>,
    before: Option<LevelMeta>,
    level: Option<LevelMeta>,
    bids: bool,
    tick: u64,
)
    requires
        updates.len() > 0,
        diffs(updates),
        removals_are_older(updates, bids, tick),
        is_settled(level, before, updates.drop_last(), nows, bids, tick),
    ensures
        is_settled(
            updates.last().level_after(
                levels_for(updates.last(), bids),
                level,
                tick,
                nows[updates.len() - 1],
            ),
            before,
            updates,
            nows,
            bids,
            tick,
        ),
{
    let rest = updates.drop_last();
    let last = updates.last();
    let n = updates.len() - 1;
    let after = last.level_after(levels_for(last, bids), level, tick, nows[n]);
    assert(updates[n] == last);
    first_quantity_is_given(levels_for(last, bids), tick);
    assert forall|i: int| #[trigger]
        writes(rest, i, bids, tick) == (i < n && writes(updates, i, bids, tick)) by {}
    assert forall|i: int| #[trigger]
        removes(rest, i, bids, tick) == (i < n && removes(updates, i, bids, tick)) by {}
    if exists|i: int| #[trigger] writes(rest, i, bids, tick) && outdates(rest[i], before) {
        let i = choose|i: int| #[trigger]
            writes(rest, i, bids, tick) && outdates(rest[i], before);
        assert(writes(updates, i, bids, tick) && outdates(updates[i], before));
        let k = choose|k: int| #[trigger]
            is_newest(rest, k, bids, tick) && outdates(rest[k], before) && level == Some(
                written(rest[k], bids, tick, nows[k]),
            );
        assert(writes(rest, k, bids, tick) && writes(updates, k, bids, tick));
        assert(rest[k] == updates[k]);
        assert forall|j: int| #[trigger] writes(updates, j, bids, tick) && j < n implies
            updates[j].exch_ts <= updates[k].exch_ts by {
            assert(writes(rest, j, bids, tick));
            assert(rest[j] == updates[j]);
        }
        if writes(updates, n, bids, tick) && last.exch_ts > updates[k].exch_ts {
            assert(is_newest(updates, n, bids, tick));
        } else {
            assert(removes(updates, n, bids, tick) ==> last.exch_ts <= updates[k].exch_ts);
            assert(is_newest(updates, k, bids, tick));
        }
    } else if writes(updates, n, bids, tick) && outdates(last, before) {
        assert forall|j: int| #[trigger] writes(updates, j, bids, tick) && j < n implies
            updates[j].exch_ts <= last.exch_ts by {
            assert(writes(rest, j, bids, tick));
            assert(rest[j] == updates[j]);
        }
        assert(is_newest(updates, n, bids, tick));
    } else {
        assert forall|i: int| #[trigger] writes(updates, i, bids, tick) implies !outdates(
            updates[i],
            before,
        ) by {
            if i < n {
                assert(writes(rest, i, bids, tick));
                assert(rest[i] == updates[i]);
            }
        }
        if exists|i: int| #[trigger] removes(rest, i, bids, tick) && outdates(rest[i], before) {
            let i = choose|i: int| #[trigger]
                removes(rest, i, bids, tick) && outdates(rest[i], before);
            assert(removes(updates, i, bids, tick) && outdates(updates[i], before));
            assert(!writes(updates, n, bids, tick));
        } else if removes(updates, n, bids, tick) && outdates(last, before) {
        } else {
            assert forall|i: int| #[trigger] removes(updates, i, bids, tick) implies !outdates(
                updates[i],
                before,
            ) by {
                if i < n {
                    assert(removes(rest, i, bids, tick));
                    assert(rest[i] == updates[i]);
                }
            }
        }
    }
}

/// Two updates of the same time that write the level at `tick` write it alike.
pub open spec fn ties_agree(
    updates: Seq<BookUpdate<PriceLevel>>,
    bids: bool,
    tick: u64,
) -> bool {
    forall|i: int, j: int| #[trigger]
        writes(updates, i, bids, tick) && #[trigger] writes(updates, j, bids, tick)
            && updates[i].exch_ts == updates[j].exch_ts ==> stored(
            written(updates[i], bids, tick, 0),
        ) == stored(written(updates[j], bids, tick, 0))
}

/// The order in which diffs arrive does not matter, nor when they are applied, nor
/// whether one arrives more than once: the same diffs leave the same level, the
/// delay aside. This holds at every price where no write is older than a removal,
/// and where writes of the same time agree.
pub proof fn arrival_order_does_not_matter(
    book: BookState,
    a: Seq<BookUpdate<PriceLevel>>,
    a_nows: Seq<i64>,
    b: Seq<BookUpdate<PriceLevel>>,
    b_nows: Seq<i64>,
    bids: bool,
    tick: u64,
)
    requires
        forall|update: BookUpdate<PriceLevel>| #[trigger]
            a.contains(update) == #[trigger] b.contains(update),
        diffs(a),
        removals_are_older(a, bids, tick),
        ties_agree(a, bids, tick),
    ensures
        alike(
            side_of(book.after_all(a, a_nows), bids).get(tick),
            side_of(book.after_all(b, b_nows), bids).get(tick),
        ),
{
    let before = side_of(book, bids).get(tick);
    assert forall|i: int| 0 <= i < b.len() implies a.contains(#[trigger] b[i]) by {
        assert(b.contains(b[i]));
    }
    assert forall|i: int| 0 <= i < a.len() implies b.contains(#[trigger] a[i]) by {
        assert(a.contains(a[i]));
    }
    assert forall|i: int| 0 <= i < b.len() implies !(#[trigger] b[i]).is_snapshot by {
        let m = a.index_of(b[i]);
        assert(a[m] == b[i]);
    }
    assert forall|i: int, j: int| #[trigger]
        removes(b, i, bids, tick) && #[trigger] writes(b, j, bids, tick) implies b[i].exch_ts
        <= b[j].exch_ts by {
        assert(removes(a, a.index_of(b[i]), bids, tick));
        assert(writes(a, a.index_of(b[j]), bids, tick));
    }
    newest_write_wins(book, a, a_nows, bids, tick);
    newest_write_wins(book, b, b_nows, bids, tick);
    assert forall|i: int| #[trigger] writes(a, i, bids, tick) implies writes(
        b,
        b.index_of(a[i]),
        bids,
        tick,
    ) && b[b.index_of(a[i])] == a[i] by {}
    assert forall|i: int| #[trigger] writes(b, i, bids, tick) implies writes(
        a,
        a.index_of(b[i]),
        bids,
        tick,
    ) && a[a.index_of(b[i])] == b[i] by {}
    assert forall|i: int| #[trigger] removes(a, i, bids, tick) implies removes(
        b,
        b.index_of(a[i]),
        bids,
        tick,
    ) && b[b.index_of(a[i])] == a[i] by {}
    assert forall|i: int| #[trigger] removes(b, i, bids, tick) implies removes(
        a,
        a.index_of(b[i]),
        bids,
        tick,
    ) && a[a.index_of(b[i])] == b[i] by {}
    if exists|i: int| #[trigger] writes(a, i, bids, tick) && outdates(a[i], before) {
        let k = choose|k: int| #[trigger]
            is_newest(a, k, bids, tick) && outdates(a[k], before) && side_of(
                book.after_all(a, a_nows),
                bids,
            ).get(tick) == Some(written(a[k], bids, tick, a_nows[k]));
        let l = choose|l: int| #[trigger]
            is_newest(b, l, bids, tick) && outdates(b[l], before) && side_of(
                book.after_all(b, b_nows),
                bids,
            ).get(tick) == Some(written(b[l], bids, tick, b_nows[l]));
        assert(writes(a, a.index_of(b[l]), bids, tick));
        assert(writes(b, b.index_of(a[k]), bids, tick));
    }
}

/// Every level has a quantity other than zero.
pub open spec fn sound_side(side: Map<u64, LevelMeta>) -> bool {
    forall|tick: u64| #[trigger] side.contains_key(tick) ==> !is_zero(side[tick].qty)
}

/// Both sides of the book are sound.
pub open spec fn sound(book: BookState) -> bool {
    sound_side(book.bids) && sound_side(book.asks)
}

/// A book that has seen no update is sound, and clearing, applying and timing
/// keep a book sound: no level with a quantity of zero is ever stored.
pub proof fn soundness_is_kept(
    symbol: String,
    tick_size: u64,
    lot_size: u64,
    book: BookState,
    update: BookUpdate<PriceLevel>,
    now: i64,
    elapsed_ns: u128,
)
    requires
        sound(book),
    ensures
        sound(BookState::empty(symbol, tick_size, lot_size)),
        sound(book.after(update, now)),
        sound(book.timed(update, elapsed_ns)),
        sound(book.cleared()),
{
    lemma_side_sound(update, update.bids@, book.bids, now);
    lemma_side_sound(update, update.asks@, book.asks, now);
}

proof fn lemma_side_sound(
    update: BookUpdate<PriceLevel>,
    levels: Seq<PriceLevel>,
    side: Map<u64, LevelMeta>,
    now: i64,
)
    requires
        sound_side(side),
    ensures
        sound_side(update.side_after(levels, side, now)),
{
    let after = update.side_after(levels, side, now);
    assert forall|tick: u64| #[trigger] after.contains_key(tick) implies !is_zero(
        after[tick].qty,
    ) by {
        first_quantity_is_given(levels, tick);
        assert(side.contains_key(tick) ==> !is_zero(side[tick].qty));
    }
}

/// Each level of the book is tagged with where it came from: it is what it was
/// before the update, or it carries a quantity that the update gives for its
/// price and the stream and times of the update.
pub proof fn levels_are_tagged_with_their_origin(
    update: BookUpdate<PriceLevel>,
    levels: Seq<PriceLevel>,
    side: Map<u64, LevelMeta>,
    tick: u64,
    now: i64,
)
    requires
        update.side_after(levels, side, now).contains_key(tick),
    ensures
        ({
            let level = update.side_after(levels, side, now)[tick];
            ||| side.contains_key(tick) && level == side[tick]
            ||| level == update.meta(level.qty, now) && levels.contains(
                PriceLevel { price: tick, qty: level.qty },
            )
        }),
{
    first_quantity_is_given(levels, tick);
}

/// The stream that a level was written by can be asked for: after a bid has
/// been stored, its price has the stream of the update; after an ask has been,
/// its price has it too, unless there is a bid at that price.
pub proof fn written_level_shows_its_stream(
    book: BookState,
    update: BookUpdate<PriceLevel>,
    tick: u64,
    now: i64,
)
    ensures
        (replaces(update, update.bids@) || !up_to_date(book.bids, tick, update))
            && first_quantity(update.bids@, tick) is Some ==> book.after(update, now).source_at(tick)
            == Some(update.source),
        (replaces(update, update.asks@) || !up_to_date(book.asks, tick, update))
            && first_quantity(update.asks@, tick) is Some && !book.after(update, now).bids.contains_key(
            tick,
        ) ==> book.after(update, now).source_at(tick) == Some(update.source),
{
}

/// The best bid is the first of the bids in their order, from the highest price
/// to the lowest.
pub proof fn best_bid_comes_first(
    best: Option<PriceLevel>,
    ticks: Seq<u64>,
    side: Map<u64, LevelMeta>,
)
    requires
        is_highest(best, side),
        lists_ascending(ticks, side),
    ensures
        match best {
            Some(level) => ticks.len() > 0 && levels_at(ticks.reverse(), side)[0] == level,
            None => ticks.len() == 0,
        },
{
    match best {
        Some(level) => {
            assert(ticks.contains(level.price));
            let i = ticks.index_of(level.price);
            assert(side.contains_key(ticks[ticks.len() - 1]));
            assert(ticks.reverse()[0] == ticks[ticks.len() - 1]);
        },
        None => {
            if ticks.len() > 0 {
                assert(side.contains_key(ticks[0]));
            }
        },
    }
}

/// The best ask is the first of the asks in their order, from the lowest price
/// to the highest.
pub proof fn best_ask_comes_first(
    best: Option<PriceLevel>,
    ticks: Seq<u64>,
    side: Map<u64, LevelMeta>,
)
    requires
        is_lowest(best, side),
        lists_ascending(ticks, side),
    ensures
        match best {
            Some(level) => ticks.len() > 0 && levels_at(ticks, side)[0] == level,
            None => ticks.len() == 0,
        },
{
    match best {
        Some(level) => {
            assert(ticks.contains(level.price));
            let i = ticks.index_of(level.price);
            assert(side.contains_key(ticks[0]));
        },
        None => {
            if ticks.len() > 0 {
                assert(side.contains_key(ticks[0]));
            }
        },
    }
}

/// What comes from a stream is a diff, received when it was received, and from
/// one of the three streams that the book is fed from.
pub proof fn stream_updates_are_diffs(text: Seq<char>, local_ts: i64)
    ensures
        message_of(text, local_ts) matches Message::Update(update) ==> {
            &&& !update.is_snapshot
            &&& update.local_ts == local_ts
            &&& update.source == StreamSource::BookTicker || update.source
                == StreamSource::DiffBookDepth || update.source == StreamSource::PartialBookDepth
        },
{
}

} // verus!
