//! What holds of the reports, line by line.

use vstd::prelude::*;
use crate::book::{ascending_is_unique, lists_ascending, BookState, LevelMeta, TimingRecord};
use crate::report::{
    dry_run_line, level_line, level_lines, timing_line, timing_lines, LevelText,
};
use crate::source::StreamSource;
use crate::text::{decimal, pad_left, signed_decimal};
use crate::text_laws::signed_decimals_differ;

verus! {

/// A number of units as a number of groups of so many, towards zero.
pub open spec fn towards_zero(units: int, group: int) -> int {
    if units < 0 {
        -((-units) / group)
    } else {
        units / group
    }
}

/// The lines of levels are one for each, in their order. The line at each position
/// has the numbers at that position and the delay of the level at that very
/// position, in whole microseconds.
proof fn lemma_level_lines(ticks: Seq<u64>, side: Map<u64, LevelMeta>, numbers: Seq<LevelText>)
    ensures
        level_lines(ticks, side, numbers) == Seq::new(
            ticks.len(),
            |i: int|
                "  "@ + numbers[i].qty@ + " @ "@ + numbers[i].price@ + "  delay="@ + signed_decimal(
                    towards_zero(side[ticks[i]].delay_ns as int, 1000),
                ) + "µs\n"@,
        ).flatten(),
    decreases ticks.len(),
{
    let line = |i: int|
        "  "@ + numbers[i].qty@ + " @ "@ + numbers[i].price@ + "  delay="@ + signed_decimal(
            towards_zero(side[ticks[i]].delay_ns as int, 1000),
        ) + "µs\n"@;
    let lines = Seq::new(ticks.len(), line);
    if ticks.len() == 0 {
        assert(lines.flatten() =~= seq![]);
    } else {
        let rest = ticks.drop_last();
        let n = ticks.len() - 1;
        lemma_level_lines(rest, side, numbers);
        let before = Seq::new(
            rest.len(),
            |i: int|
                "  "@ + numbers[i].qty@ + " @ "@ + numbers[i].price@ + "  delay="@ + signed_decimal(
                    towards_zero(side[rest[i]].delay_ns as int, 1000),
                ) + "µs\n"@,
        );
        assert(lines =~= before.push(line(n)));
        before.lemma_flatten_push(line(n));
        assert(level_line(numbers[n], side[ticks.last()].delay_ns) == line(n));
    }
}

/// The asks in words: one line for each, from the lowest price to the highest, with
/// its own delay.
pub proof fn asks_in_words(book: BookState, ticks: Seq<u64>, numbers: Seq<LevelText>)
    requires
        forall|i: int, j: int| 0 <= i < j < ticks.len() ==> ticks[i] < ticks[j],
        forall|i: int| 0 <= i < ticks.len() ==> book.asks.contains_key(#[trigger] ticks[i]),
        forall|tick: u64| #[trigger] book.asks.contains_key(tick) ==> ticks.contains(tick),
    ensures
        book.ask_lines(numbers) == Seq::new(
            ticks.len(),
            |i: int|
                "  "@ + numbers[i].qty@ + " @ "@ + numbers[i].price@ + "  delay="@ + signed_decimal(
                    towards_zero(book.asks[ticks[i]].delay_ns as int, 1000),
                ) + "µs\n"@,
        ).flatten(),
{
    assert(lists_ascending(ticks, book.asks));
    ascending_is_unique(ticks, book.asks);
    lemma_level_lines(ticks, book.asks, numbers);
}

/// The bids in words: one line for each, from the highest price to the lowest, with
/// its own delay.
pub proof fn bids_in_words(book: BookState, ticks: Seq<u64>, numbers: Seq<LevelText>)
    requires
        forall|i: int, j: int| 0 <= i < j < ticks.len() ==> ticks[i] > ticks[j],
        forall|i: int| 0 <= i < ticks.len() ==> book.bids.contains_key(#[trigger] ticks[i]),
        forall|tick: u64| #[trigger] book.bids.contains_key(tick) ==> ticks.contains(tick),
    ensures
        book.bid_lines(numbers) == Seq::new(
            ticks.len(),
            |i: int|
                "  "@ + numbers[i].qty@ + " @ "@ + numbers[i].price@ + "  delay="@ + signed_decimal(
                    towards_zero(book.bids[ticks[i]].delay_ns as int, 1000),
                ) + "µs\n"@,
        ).flatten(),
{
    let rising = ticks.reverse();
    assert forall|tick: u64| #[trigger] book.bids.contains_key(tick) implies rising.contains(
        tick,
    ) by {
        assert(ticks.contains(tick));
        let i = ticks.index_of(tick);
        assert(rising[ticks.len() - 1 - i] == tick);
    }
    assert(lists_ascending(rising, book.bids));
    ascending_is_unique(rising, book.bids);
    assert(rising.reverse() =~= ticks);
    lemma_level_lines(ticks, book.bids, numbers);
}

/// Levels with different delays in whole microseconds have different lines.
pub proof fn lines_show_their_delays(numbers: LevelText, a: i64, b: i64)
    requires
        towards_zero(a as int, 1000) != towards_zero(b as int, 1000),
    ensures
        level_line(numbers, a) != level_line(numbers, b),
{
    let front = "  "@ + numbers.qty@ + " @ "@ + numbers.price@ + "  delay="@;
    let x = signed_decimal(towards_zero(a as int, 1000));
    let y = signed_decimal(towards_zero(b as int, 1000));
    signed_decimals_differ(towards_zero(a as int, 1000), towards_zero(b as int, 1000));
    assert(level_line(numbers, a) == front + x + "µs\n"@);
    assert(level_line(numbers, b) == front + y + "µs\n"@);
    if level_line(numbers, a) == level_line(numbers, b) {
        let line = level_line(numbers, a);
        let back = "µs\n"@.len();
        assert(x =~= line.subrange(front.len() as int, line.len() - back));
        assert(y =~= line.subrange(front.len() as int, line.len() - back));
    }
}

/// Above the levels stand the pair, how many asks and bids there are, and, where
/// the book has a last stream, that stream and how many updates there were.
pub proof fn heading_in_words(book: BookState)
    ensures
        book.last_source is None ==> book.heading() == "── "@ + book.symbol@ + " ──\n"@
            + "  Asks ("@ + decimal(book.asks.len()) + ") | Bids ("@ + decimal(book.bids.len())
            + ")\n"@,
        book.last_source is Some ==> book.heading() == "── "@ + book.symbol@ + " ──\n"@
            + "  Asks ("@ + decimal(book.asks.len()) + ") | Bids ("@ + decimal(book.bids.len())
            + ")\n"@ + "  Last update: "@ + book.last_source->0.label() + " ("@ + decimal(
            book.update_count as nat,
        ) + ")\n"@,
{
    if book.last_source is None {
        assert(book.heading() =~= "── "@ + book.symbol@ + " ──\n"@ + "  Asks ("@ + decimal(
            book.asks.len(),
        ) + ") | Bids ("@ + decimal(book.bids.len()) + ")\n"@);
    } else {
        assert(book.heading() =~= "── "@ + book.symbol@ + " ──\n"@ + "  Asks ("@ + decimal(
            book.asks.len(),
        ) + ") | Bids ("@ + decimal(book.bids.len()) + ")\n"@ + "  Last update: "@
            + book.last_source->0.label() + " ("@ + decimal(book.update_count as nat) + ")\n"@);
    }
}

/// The log in words: one line for each record, in their order, with its time, its
/// numbers of levels and its stream.
pub proof fn log_in_words(log: Seq<TimingRecord>)
    ensures
        timing_lines(log) == Seq::new(
            log.len(),
            |i: int|
                "[apply] "@ + pad_left(decimal(log[i].elapsed_ns as nat), 6) + " ns  |  "@ + decimal(
                    log[i].bids as nat,
                ) + " bids, "@ + decimal(log[i].asks as nat) + " asks  |  source="@
                    + log[i].source.label() + "\n"@,
        ).flatten(),
    decreases log.len(),
{
    let line = |r: TimingRecord|
        "[apply] "@ + pad_left(decimal(r.elapsed_ns as nat), 6) + " ns  |  "@ + decimal(
            r.bids as nat,
        ) + " bids, "@ + decimal(r.asks as nat) + " asks  |  source="@ + r.source.label() + "\n"@;
    let lines = Seq::new(
        log.len(),
        |i: int|
            "[apply] "@ + pad_left(decimal(log[i].elapsed_ns as nat), 6) + " ns  |  "@ + decimal(
                log[i].bids as nat,
            ) + " bids, "@ + decimal(log[i].asks as nat) + " asks  |  source="@
                + log[i].source.label() + "\n"@,
    );
    if log.len() == 0 {
        assert(lines.flatten() =~= seq![]);
    } else {
        let rest = log.drop_last();
        log_in_words(rest);
        let before = Seq::new(
            rest.len(),
            |i: int|
                "[apply] "@ + pad_left(decimal(rest[i].elapsed_ns as nat), 6) + " ns  |  "@
                    + decimal(rest[i].bids as nat) + " bids, "@ + decimal(rest[i].asks as nat)
                    + " asks  |  source="@ + rest[i].source.label() + "\n"@,
        );
        assert(lines =~= before.push(line(log.last())));
        before.lemma_flatten_push(line(log.last()));
        assert(timing_line(log.last()) == line(log.last()));
    }
}

/// An update in words: its stream, whether it is a snapshot, how many bids and asks
/// it has, and the span from its local to its exchange time in whole milliseconds.
pub proof fn update_in_words(
    source: StreamSource,
    is_snapshot: bool,
    bids: nat,
    asks: nat,
    exch_ts: i64,
    local_ts: i64,
)
    ensures
        ({
            let kind = if is_snapshot {
                "snapshot"@
            } else {
                "diff"@
            };
            let bid_words = if bids == 0 {
                "no bids"@
            } else {
                "Bid: "@ + decimal(bids) + " levels"@
            };
            let ask_words = if asks == 0 {
                "no asks"@
            } else {
                "Ask: "@ + decimal(asks) + " levels"@
            };
            i64::MIN <= exch_ts - local_ts <= i64::MAX ==> dry_run_line(
                source,
                is_snapshot,
                bids,
                asks,
                exch_ts,
                local_ts,
            ) == "[dry-run] "@ + source.label() + "  "@ + kind + "  "@ + bid_words + "  "@
                + ask_words + " delay: "@ + signed_decimal(
                towards_zero(exch_ts - local_ts, 1_000_000),
            ) + " ms"@
        }),
{
}

} // verus!
