//! Reports in words: the book, its timing log, and updates as they pass by.

use vstd::prelude::*;
use crate::book::{ascending, BookState, BookUpdate, LevelMeta, LocalOrderBook, TimingRecord};
use crate::source::StreamSource;
use crate::text::{
    decimal, pad_left, push_decimal, push_padded_decimal, push_signed_decimal, signed_decimal,
};

verus! {

/// The line of a timing record.
pub open spec fn timing_line(record: TimingRecord) -> Seq<char> {
    "[apply] "@ + pad_left(decimal(record.elapsed_ns as nat), 6) + " ns  |  "@ + decimal(
        record.bids as nat,
    ) + " bids, "@ + decimal(record.asks as nat) + " asks  |  source="@ + record.source.label()
        + "\n"@
}

/// The lines of a timing log, one record after the other.
pub open spec fn timing_lines(log: Seq<TimingRecord>) -> Seq<char>
    decreases log.len(),
{
    if log.len() == 0 {
        seq![]
    } else {
        timing_lines(log.drop_last()) + timing_line(log.last())
    }
}

/// The numbers of a price level, written out.
#[derive(Debug, Clone)]
pub struct LevelText {
    pub price: String,
    pub qty: String,
}

/// A delay in whole microseconds, towards zero.
pub open spec fn micros(delay_ns: int) -> int {
    if delay_ns < 0 {
        -((-delay_ns) / 1000)
    } else {
        delay_ns / 1000
    }
}

/// The line of a level of the book.
pub open spec fn level_line(numbers: LevelText, delay_ns: i64) -> Seq<char> {
    "  "@ + numbers.qty@ + " @ "@ + numbers.price@ + "  delay="@ + signed_decimal(
        micros(delay_ns as int),
    ) + "µs\n"@
}

/// The lines of the levels of `side` at `ticks`, whose numbers are `numbers`,
/// in that order.
pub open spec fn level_lines(
    ticks: Seq<u64>,
    side: Map<u64, LevelMeta>,
    numbers: Seq<LevelText>,
) -> Seq<char>
    decreases ticks.len(),
{
    if ticks.len() == 0 {
        seq![]
    } else {
        level_lines(ticks.drop_last(), side, numbers) + level_line(
            numbers[ticks.len() - 1],
            side[ticks.last()].delay_ns,
        )
    }
}

impl BookState {
    /// The lines of the asks, lowest price first.
    pub open spec fn ask_lines(self, numbers: Seq<LevelText>) -> Seq<char> {
        level_lines(ascending(self.asks), self.asks, numbers)
    }

    /// The lines of the bids, highest price first.
    pub open spec fn bid_lines(self, numbers: Seq<LevelText>) -> Seq<char> {
        level_lines(ascending(self.bids).reverse(), self.bids, numbers)
    }

    /// The lines above the levels: the pair, the depths and, where the book has
    /// been updated, by which stream it was last.
    pub open spec fn heading(self) -> Seq<char> {
        "── "@ + self.symbol@ + " ──\n"@ + "  Asks ("@ + decimal(self.asks.len()) + ") | Bids ("@
            + decimal(self.bids.len()) + ")\n"@ + match self.last_source {
            Some(source) => "  Last update: "@ + source.label() + " ("@ + decimal(
                self.update_count as nat,
            ) + ")\n"@,
            None => seq![],
        }
    }
}

impl LocalOrderBook {
    /// Takes all buffered timing records out of the log and returns their
    /// lines, or `None` where there are none.
    ///
    /// Call this periodically (e.g. every 5 seconds) from the stream callback.
    pub fn flush_timing_log(&mut self) -> (lines: Option<String>)
        ensures
            final(self)@ == (BookState { timings: seq![], ..old(self)@ }),
            match lines {
                Some(text) => old(self)@.timings.len() > 0 && text@ == timing_lines(
                    old(self)@.timings,
                ),
                None => old(self)@.timings.len() == 0,
            },
    {
        let log = self.take_timings();
        if log.len() == 0 {
            return None;
        }
        let mut text = String::new();
        for i in 0..log.len()
            invariant
                text@ == timing_lines(log@.take(i as int)),
        {
            let record = log[i];
            text.append("[apply] ");
            push_padded_decimal(&mut text, record.elapsed_ns, 6);
            text.append(" ns  |  ");
            push_decimal(&mut text, record.bids as u128);
            text.append(" bids, ");
            push_decimal(&mut text, record.asks as u128);
            text.append(" asks  |  source=");
            text.append(record.source.to_string().as_str());
            text.append("\n");
            proof {
                assert(log@.take(i + 1).drop_last() =~= log@.take(i as int));
                assert(text@ =~= timing_lines(log@.take(i as int)) + timing_line(record));
            }
        }
        assert(log@.take(log.len() as int) =~= log@);
        Some(text)
    }

    /// The lines of all ask levels with delay info, lowest price first.
    /// `numbers` are the prices and quantities of `asks()`, written out.
    pub fn asks_text(&self, numbers: &Vec<LevelText>) -> (text: String)
        requires
            numbers.len() == self@.asks.len(),
        ensures
            text@ == self@.ask_lines(numbers@),
    {
        let list = self.ask_entries();
        lines_of(&list, numbers, Ghost(ascending(self@.asks)), Ghost(self@.asks))
    }

    /// The lines of all bid levels with delay info, highest price first.
    /// `numbers` are the prices and quantities of `bids()`, written out.
    pub fn bids_text(&self, numbers: &Vec<LevelText>) -> (text: String)
        requires
            numbers.len() == self@.bids.len(),
        ensures
            text@ == self@.bid_lines(numbers@),
    {
        let list = self.bid_entries();
        lines_of(&list, numbers, Ghost(ascending(self@.bids).reverse()), Ghost(self@.bids))
    }

    /// The whole book in words. `asks` and `bids` are the prices and quantities
    /// of `asks()` and `bids()`, written out.
    pub fn to_text(&self, asks: &Vec<LevelText>, bids: &Vec<LevelText>) -> (text: String)
        requires
            asks.len() == self@.asks.len(),
            bids.len() == self@.bids.len(),
        ensures
            text@ == self@.heading() + self@.ask_lines(asks@) + "  ───────\n"@ + self@.bid_lines(
                bids@,
            ),
    {
        let mut text = String::from("── ");
        text.append(self.pair());
        text.append(" ──\n");
        text.append("  Asks (");
        push_decimal(&mut text, self.ask_depth() as u128);
        text.append(") | Bids (");
        push_decimal(&mut text, self.bid_depth() as u128);
        text.append(")\n");
        if let Some(source) = self.last_source() {
            text.append("  Last update: ");
            text.append(source.to_string().as_str());
            text.append(" (");
            push_decimal(&mut text, self.update_count() as u128);
            text.append(")\n");
        }
        assert(text@ =~= self@.heading());
        text.append(self.asks_text(asks).as_str());
        text.append("  ───────\n");
        text.append(self.bids_text(bids).as_str());
        text
    }
}

fn lines_of(
    list: &Vec<(u64, LevelMeta)>,
    numbers: &Vec<LevelText>,
    Ghost(ticks): Ghost<Seq<u64>>,
    Ghost(side): Ghost<Map<u64, LevelMeta>>,
) -> (text: String)
    requires
        numbers.len() == list.len(),
        list@ == ticks.map_values(|tick: u64| (tick, side[tick])),
    ensures
        text@ == level_lines(ticks, side, numbers@),
{
    let mut text = String::new();
    for i in 0..list.len()
        invariant
            numbers.len() == list.len(),
            list@ == ticks.map_values(|tick: u64| (tick, side[tick])),
            text@ == level_lines(ticks.take(i as int), side, numbers@),
    {
        let delay_ns = list[i].1.delay_ns;
        text.append("  ");
        text.append(numbers[i].qty.as_str());
        text.append(" @ ");
        text.append(numbers[i].price.as_str());
        text.append("  delay=");
        push_signed_decimal(&mut text, whole_micros(delay_ns));
        text.append("µs\n");
        proof {
            assert(ticks.take(i + 1).drop_last() =~= ticks.take(i as int));
            assert(ticks.take(i + 1).last() == list[i as int].0);
            assert(text@ =~= level_lines(ticks.take(i as int), side, numbers@) + level_line(
                numbers[i as int],
                delay_ns,
            ));
        }
    }
    assert(ticks.take(list.len() as int) =~= ticks);
    text
}

fn whole_micros(delay_ns: i64) -> (us: i64)
    ensures
        us == micros(delay_ns as int),
{
    if delay_ns < 0 {
        let magnitude: u128 = (0 - (delay_ns as i128)) as u128;
        (0 - ((magnitude / 1000) as i128)) as i64
    } else {
        delay_ns / 1000
    }
}

/// "no bids", "Bid: 3 levels" and the like.
pub open spec fn side_summary(none: Seq<char>, side: Seq<char>, levels: nat) -> Seq<char> {
    if levels == 0 {
        none
    } else {
        side + decimal(levels) + " levels"@
    }
}

/// A time span in whole milliseconds, towards zero.
pub open spec fn millis(span_ns: int) -> int {
    if span_ns < 0 {
        -((-span_ns) / 1_000_000)
    } else {
        span_ns / 1_000_000
    }
}

/// The line that sums up an update with so many bids and asks, for diagnostics.
pub open spec fn dry_run_line(
    source: StreamSource,
    is_snapshot: bool,
    bids: nat,
    asks: nat,
    exch_ts: i64,
    local_ts: i64,
) -> Seq<char> {
    "[dry-run] "@ + source.label() + "  "@ + (if is_snapshot {
        "snapshot"@
    } else {
        "diff"@
    }) + "  "@ + side_summary("no bids"@, "Bid: "@, bids) + "  "@ + side_summary(
        "no asks"@,
        "Ask: "@,
        asks,
    ) + " delay: "@ + signed_decimal(millis(exch_ts.wrapping_sub(local_ts) as int)) + " ms"@
}

fn push_side_summary(text: &mut String, none: &str, side: &str, levels: usize)
    ensures
        final(text)@ == old(text)@ + side_summary(none@, side@, levels as nat),
{
    if levels == 0 {
        text.append(none);
    } else {
        text.append(side);
        push_decimal(text, levels as u128);
        text.append(" levels");
        assert(text@ =~= old(text)@ + side_summary(none@, side@, levels as nat));
    }
}

/// The line that sums up an update, for diagnostics.
pub fn dry_run_text<L>(update: &BookUpdate<L>) -> (text: String)
    ensures
        text@ == dry_run_line(
            update.source,
            update.is_snapshot,
            update.bids@.len(),
            update.asks@.len(),
            update.exch_ts,
            update.local_ts,
        ),
{
    let mut text = String::from("[dry-run] ");
    text.append(update.source.to_string().as_str());
    text.append("  ");
    text.append(if update.is_snapshot { "snapshot" } else { "diff" });
    text.append("  ");
    push_side_summary(&mut text, "no bids", "Bid: ", update.bids.len());
    text.append("  ");
    push_side_summary(&mut text, "no asks", "Ask: ", update.asks.len());
    text.append(" delay: ");
    let span_ns = update.exch_ts.wrapping_sub(update.local_ts);
    if span_ns < 0 {
        let magnitude: u128 = (0 - (span_ns as i128)) as u128;
        push_signed_decimal(&mut text, (0 - ((magnitude / 1_000_000) as i128)) as i64);
    } else {
        push_signed_decimal(&mut text, span_ns / 1_000_000);
    }
    text.append(" ms");
    text
}

} // verus!
