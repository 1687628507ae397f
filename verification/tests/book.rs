use depth_fusion::book::{BookUpdate, LocalOrderBook, PriceLevel};
use depth_fusion::source::StreamSource;

fn tick(price: f64, tick_size: f64) -> u64 {
    (price / tick_size).round() as u64
}

fn level(price: f64, qty: f64, tick_size: f64) -> PriceLevel {
    PriceLevel::new(tick(price, tick_size), qty.to_bits())
}

fn price(level: PriceLevel, tick_size: f64) -> f64 {
    level.price as f64 * tick_size
}

fn qty(level: PriceLevel) -> f64 {
    f64::from_bits(level.qty)
}

fn new_book(symbol: &str, tick_size: f64) -> LocalOrderBook {
    LocalOrderBook::new(symbol, tick_size.to_bits(), 0.001f64.to_bits())
}

fn diff(
    source: StreamSource,
    exch_ts: i64,
    bids: Vec<PriceLevel>,
    asks: Vec<PriceLevel>,
) -> BookUpdate<PriceLevel> {
    BookUpdate { source, exch_ts, local_ts: exch_ts + 7, bids, asks, is_snapshot: false }
}

fn snapshot(
    source: StreamSource,
    exch_ts: i64,
    bids: Vec<PriceLevel>,
    asks: Vec<PriceLevel>,
) -> BookUpdate<PriceLevel> {
    BookUpdate { source, exch_ts, local_ts: exch_ts + 7, bids, asks, is_snapshot: true }
}

fn pl(price: u64, qty: f64) -> PriceLevel {
    PriceLevel::new(price, qty.to_bits())
}

#[test]
fn snapshot_replaces_book() {
    let mut book = new_book("BTCUSDT", 0.1);

    // Apply a snapshot
    let snap = BookUpdate {
        source: StreamSource::PartialBookDepth,
        exch_ts: 1_000_000,
        local_ts: 1_000_001,
        bids: vec![level(100.0, 1.0, 0.1)],
        asks: vec![level(101.0, 2.0, 0.1)],
        is_snapshot: true,
    };
    book.apply(&snap);
    assert_eq!(price(book.best_bid().unwrap(), 0.1), 100.0);
    assert_eq!(price(book.best_ask().unwrap(), 0.1), 101.0);

    // A second snapshot replaces both sides.
    let snap2 = BookUpdate {
        source: StreamSource::DiffBookDepth,
        exch_ts: 2_000_000,
        local_ts: 2_000_001,
        bids: vec![level(99.0, 3.0, 0.1)],
        asks: vec![level(102.0, 1.0, 0.1)],
        is_snapshot: true,
    };
    book.apply(&snap2);
    assert_eq!(price(book.best_bid().unwrap(), 0.1), 99.0);
    assert_eq!(price(book.best_ask().unwrap(), 0.1), 102.0);
    // Old levels gone
    assert_eq!(book.bid_depth(), 1);
    assert_eq!(book.ask_depth(), 1);
}

#[test]
fn diff_upserts_and_removes() {
    let mut book = new_book("ETHUSDT", 0.01);

    // Seed with a snapshot
    book.apply(&BookUpdate {
        source: StreamSource::PartialBookDepth,
        exch_ts: 1,
        local_ts: 1,
        bids: vec![level(2000.0, 10.0, 0.01)],
        asks: vec![level(2001.0, 5.0, 0.01)],
        is_snapshot: true,
    });

    // Diff: update bid qty, remove ask, add a new ask level
    book.apply(&BookUpdate {
        source: StreamSource::DiffBookDepth,
        exch_ts: 2,
        local_ts: 2,
        bids: vec![level(2000.0, 15.0, 0.01)],
        asks: vec![
            level(2001.0, 0.0, 0.01), // remove
            level(2002.0, 3.0, 0.01), // add
        ],
        is_snapshot: false,
    });

    assert_eq!(qty(book.best_bid().unwrap()), 15.0);
    assert_eq!(price(book.best_ask().unwrap(), 0.01), 2002.0);
}

#[test]
fn tracks_stream_source_per_level() {
    let mut book = new_book("BTCUSDT", 0.1);

    book.apply(&BookUpdate {
        source: StreamSource::BookTicker,
        exch_ts: 1,
        local_ts: 1,
        bids: vec![level(100.0, 1.0, 0.1)],
        asks: vec![],
        is_snapshot: true,
    });

    assert_eq!(book.source_at_price(tick(100.0, 0.1)), Some(StreamSource::BookTicker));
    assert_eq!(book.last_source(), Some(StreamSource::BookTicker));
}

#[test]
fn new_book_is_empty() {
    let book = new_book("BTCUSDT", 0.1);
    assert_eq!(book.symbol, "BTCUSDT");
    assert_eq!(f64::from_bits(book.tick_size), 0.1);
    assert_eq!(f64::from_bits(book.lot_size), 0.001);
    assert_eq!(book.best_bid(), None);
    assert_eq!(book.best_ask(), None);
    assert!(book.bids().is_empty());
    assert!(book.asks().is_empty());
    assert_eq!(book.last_source(), None);
    assert_eq!(book.update_count(), 0);
    assert_eq!(book.source_at_price(0), None);
}

#[test]
fn sides_come_in_order() {
    let mut book = new_book("BTCUSDT", 1.0);
    book.apply(&diff(
        StreamSource::DiffBookDepth,
        1,
        vec![pl(98, 1.0), pl(100, 2.0), pl(99, 3.0)],
        vec![pl(103, 4.0), pl(101, 5.0), pl(102, 6.0)],
    ));
    assert_eq!(book.bids(), vec![pl(100, 2.0), pl(99, 3.0), pl(98, 1.0)]);
    assert_eq!(book.asks(), vec![pl(101, 5.0), pl(102, 6.0), pl(103, 4.0)]);
    assert_eq!(book.best_bid(), Some(book.bids()[0]));
    assert_eq!(book.best_ask(), Some(book.asks()[0]));
    assert_eq!(book.bid_depth(), 3);
    assert_eq!(book.ask_depth(), 3);
}

#[test]
fn stale_and_simultaneous_writes_are_dropped() {
    let mut book = new_book("BTCUSDT", 1.0);
    book.apply(&diff(StreamSource::BookTicker, 10, vec![pl(100, 1.0)], vec![]));
    book.apply(&diff(StreamSource::DiffBookDepth, 9, vec![pl(100, 2.0)], vec![]));
    assert_eq!(book.bids(), vec![pl(100, 1.0)]);
    book.apply(&diff(StreamSource::DiffBookDepth, 10, vec![pl(100, 0.0)], vec![]));
    assert_eq!(book.bids(), vec![pl(100, 1.0)]);
    assert_eq!(book.source_at_price(100), Some(StreamSource::BookTicker));
    assert_eq!(book.last_source(), Some(StreamSource::DiffBookDepth));
    book.apply(&diff(StreamSource::DiffBookDepth, 11, vec![pl(100, 2.0)], vec![]));
    assert_eq!(book.bids(), vec![pl(100, 2.0)]);
    assert_eq!(book.source_at_price(100), Some(StreamSource::DiffBookDepth));
    assert_eq!(book.update_count(), 4);
}

#[test]
fn a_level_that_was_removed_can_come_back_late() {
    let mut book = new_book("BTCUSDT", 1.0);
    book.apply(&diff(StreamSource::DiffBookDepth, 10, vec![pl(100, 1.0)], vec![]));
    book.apply(&diff(StreamSource::DiffBookDepth, 20, vec![pl(100, 0.0)], vec![]));
    assert_eq!(book.bid_depth(), 0);
    book.apply(&diff(StreamSource::PartialBookDepth, 15, vec![pl(100, 3.0)], vec![]));
    assert_eq!(book.bids(), vec![pl(100, 3.0)]);
}

#[test]
fn zero_is_never_stored() {
    let mut book = new_book("BTCUSDT", 1.0);
    book.apply(&diff(
        StreamSource::DiffBookDepth,
        1,
        vec![pl(100, 0.0), pl(101, -0.0)],
        vec![pl(200, f64::MIN_POSITIVE)],
    ));
    assert_eq!(book.bid_depth(), 0);
    assert_eq!(book.asks(), vec![pl(200, f64::MIN_POSITIVE)]);
    book.apply(&diff(StreamSource::DiffBookDepth, 2, vec![], vec![pl(200, -0.0)]));
    assert_eq!(book.ask_depth(), 0);
    // A quantity that is no number is not zero.
    book.apply(&diff(StreamSource::DiffBookDepth, 3, vec![pl(100, f64::NAN)], vec![]));
    assert_eq!(book.bid_depth(), 1);
}

#[test]
fn first_quantity_of_an_update_counts() {
    let mut book = new_book("BTCUSDT", 1.0);
    book.apply(&diff(
        StreamSource::DiffBookDepth,
        1,
        vec![pl(100, 0.0), pl(100, 1.0), pl(100, 2.0), pl(100, 0.0)],
        vec![],
    ));
    assert_eq!(book.bids(), vec![pl(100, 1.0)]);
}

#[test]
fn snapshot_keeps_a_side_it_has_no_levels_for() {
    let mut book = new_book("BTCUSDT", 1.0);
    book.apply(&diff(StreamSource::DiffBookDepth, 5, vec![pl(100, 1.0)], vec![pl(101, 1.0)]));
    book.apply(&snapshot(StreamSource::PartialBookDepth, 1, vec![pl(90, 2.0)], vec![]));
    assert_eq!(book.bids(), vec![pl(90, 2.0)]);
    assert_eq!(book.asks(), vec![pl(101, 1.0)]);
}

#[test]
fn snapshot_of_zeros_empties_a_side() {
    let mut book = new_book("BTCUSDT", 1.0);
    book.apply(&diff(StreamSource::DiffBookDepth, 5, vec![pl(100, 1.0)], vec![pl(101, 1.0)]));
    book.apply(&snapshot(StreamSource::PartialBookDepth, 6, vec![pl(90, 0.0)], vec![]));
    assert_eq!(book.bid_depth(), 0);
    assert_eq!(book.ask_depth(), 1);
}

#[test]
fn applying_twice_changes_nothing() {
    let update = diff(
        StreamSource::DiffBookDepth,
        6,
        vec![pl(100, 0.0), pl(99, 4.0)],
        vec![pl(101, 2.0)],
    );
    let mut book = new_book("BTCUSDT", 1.0);
    book.apply(&diff(StreamSource::DiffBookDepth, 5, vec![pl(100, 1.0)], vec![pl(101, 1.0)]));
    book.apply(&update);
    let (bids, asks) = (book.bids(), book.asks());
    book.apply(&update);
    assert_eq!(book.bids(), bids);
    assert_eq!(book.asks(), asks);
    assert_eq!(bids, vec![pl(99, 4.0)]);
    assert_eq!(asks, vec![pl(101, 2.0)]);
}

#[test]
fn arrival_order_of_writes_does_not_matter() {
    let a = diff(StreamSource::BookTicker, 6, vec![pl(100, 1.0)], vec![pl(101, 1.0)]);
    let b = diff(StreamSource::DiffBookDepth, 7, vec![pl(100, 2.0), pl(99, 3.0)], vec![]);
    let mut first = new_book("BTCUSDT", 1.0);
    first.apply(&a);
    first.apply(&b);
    let mut second = new_book("BTCUSDT", 1.0);
    second.apply(&b);
    second.apply(&a);
    assert_eq!(first.bids(), second.bids());
    assert_eq!(first.asks(), second.asks());
    assert_eq!(first.source_at_price(100), Some(StreamSource::DiffBookDepth));
    assert_eq!(second.source_at_price(100), Some(StreamSource::DiffBookDepth));
}

#[test]
fn newest_word_on_a_level_wins_in_every_order() {
    let updates = [
        diff(StreamSource::DiffBookDepth, 4, vec![pl(100, 0.0)], vec![pl(105, 0.0)]),
        diff(StreamSource::BookTicker, 6, vec![pl(100, 1.0)], vec![pl(101, 1.0)]),
        diff(StreamSource::PartialBookDepth, 8, vec![pl(100, 2.0), pl(99, 3.0)], vec![]),
    ];
    let seed = snapshot(StreamSource::Other("seed"), 3, vec![pl(100, 9.0)], vec![pl(105, 9.0)]);
    let orders: [&[usize]; 7] = [
        &[0, 1, 2],
        &[0, 2, 1],
        &[1, 0, 2],
        &[1, 2, 0],
        &[2, 0, 1],
        &[2, 1, 0],
        &[1, 1, 2, 0, 2],
    ];
    for order in orders {
        let mut book = new_book("BTCUSDT", 1.0);
        book.apply(&seed);
        for i in order {
            book.apply(&updates[*i]);
        }
        assert_eq!(book.bids(), vec![pl(100, 2.0), pl(99, 3.0)]);
        assert_eq!(book.asks(), vec![pl(101, 1.0)]);
        assert_eq!(book.source_at_price(100), Some(StreamSource::PartialBookDepth));
        assert_eq!(book.update_count(), 1 + order.len() as u64);
    }
}

#[test]
fn a_bid_is_asked_before_an_ask() {
    let mut book = new_book("BTCUSDT", 1.0);
    book.apply(&diff(StreamSource::BookTicker, 1, vec![], vec![pl(100, 1.0)]));
    assert_eq!(book.source_at_price(100), Some(StreamSource::BookTicker));
    book.apply(&diff(StreamSource::Other("x"), 1, vec![pl(100, 1.0)], vec![]));
    assert_eq!(book.source_at_price(100), Some(StreamSource::Other("x")));
    assert_eq!(book.source_at_price(101), None);
}

#[test]
fn clear_keeps_the_count() {
    let mut book = new_book("BTCUSDT", 1.0);
    book.apply(&diff(StreamSource::BookTicker, 1, vec![pl(99, 1.0)], vec![pl(100, 1.0)]));
    book.clear();
    assert_eq!(book.bid_depth(), 0);
    assert_eq!(book.ask_depth(), 0);
    assert_eq!(book.last_source(), None);
    assert_eq!(book.update_count(), 1);
    assert_eq!(book.flush_timing_log(), None);
}
