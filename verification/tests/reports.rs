use depth_fusion::book::{BookUpdate, LocalOrderBook, PriceLevel};
use depth_fusion::clock::now_nanos;
use depth_fusion::error::{HttpError, StreamError};
use depth_fusion::report::{dry_run_text, LevelText};
use depth_fusion::source::StreamSource;
use depth_fusion::text::{join, push_decimal, push_padded_decimal, push_signed_decimal};

fn update(exch_ts: i64, local_ts: i64) -> BookUpdate<PriceLevel> {
    BookUpdate {
        source: StreamSource::DiffBookDepth,
        exch_ts,
        local_ts,
        bids: vec![PriceLevel::new(99, 1), PriceLevel::new(98, 2)],
        asks: vec![PriceLevel::new(101, 3)],
        is_snapshot: false,
    }
}

fn text(price: &str, qty: &str) -> LevelText {
    LevelText { price: price.into(), qty: qty.into() }
}

#[test]
fn timing_log_is_flushed_once() {
    let mut book = LocalOrderBook::new("BTCUSDT", 0, 0);
    assert_eq!(book.flush_timing_log(), None);
    book.log_timing(&update(1, 1), 42);
    book.log_timing(&update(2, 2), 12_345_678);
    assert_eq!(
        book.flush_timing_log().unwrap(),
        "[apply]     42 ns  |  2 bids, 1 asks  |  source=diff_book_depth\n\
         [apply] 12345678 ns  |  2 bids, 1 asks  |  source=diff_book_depth\n",
    );
    assert_eq!(book.flush_timing_log(), None);
}

#[test]
fn apply_logs_one_record() {
    let mut book = LocalOrderBook::new("BTCUSDT", 0, 0);
    book.apply(&update(1, 1));
    let lines = book.flush_timing_log().unwrap();
    assert!(lines.starts_with("[apply] "));
    assert!(lines.ends_with(" ns  |  2 bids, 1 asks  |  source=diff_book_depth\n"));
    book.apply_levels(&update(2, 2), 2);
    assert_eq!(book.flush_timing_log(), None);
    assert_eq!(book.update_count(), 2);
}

#[test]
fn log_has_a_line_for_every_apply_in_order() {
    let mut book = LocalOrderBook::new("BTCUSDT", 0, 0);
    for round in 0..2 {
        for bids in 0..3usize {
            let mut update = update(1, 1);
            update.bids.truncate(bids);
            book.apply(&update);
        }
        let lines = book.flush_timing_log().unwrap();
        assert!(lines.ends_with('\n'));
        for (i, line) in lines.lines().enumerate() {
            assert!(line.starts_with("[apply] "));
            let rest = format!(" ns  |  {i} bids, 1 asks  |  source=diff_book_depth");
            assert!(line.ends_with(&rest));
        }
        assert_eq!(lines.lines().count(), 3);
        assert_eq!(book.flush_timing_log(), None);
        assert_eq!(book.update_count(), 3 * (round + 1));
        assert_eq!((book.bid_depth(), book.ask_depth()), (2, 1));
        assert_eq!(book.last_source(), Some(StreamSource::DiffBookDepth));
    }
    book.apply(&update(1, 1));
    book.clear();
    assert_eq!(book.flush_timing_log(), None);
}

#[test]
fn book_in_words() {
    let mut book = LocalOrderBook::new("BTCUSDT", 0, 0);
    assert_eq!(
        book.to_text(&vec![], &vec![]),
        "── BTCUSDT ──\n  Asks (0) | Bids (0)\n  ───────\n",
    );
    book.apply_levels(&update(5_000, 7), 1_239_999);
    assert_eq!(
        book.to_text(&vec![text("101.0", "3.0")], &vec![text("99.0", "1.0"), text("98.0", "2.0")]),
        "── BTCUSDT ──\n\
         \x20 Asks (1) | Bids (2)\n\
         \x20 Last update: diff_book_depth (1)\n\
         \x20 3.0 @ 101.0  delay=1234µs\n\
         \x20 ───────\n\
         \x20 1.0 @ 99.0  delay=1234µs\n\
         \x20 2.0 @ 98.0  delay=1234µs\n",
    );
}

#[test]
fn delays_are_cut_towards_zero() {
    let mut book = LocalOrderBook::new("BTCUSDT", 0, 0);
    book.apply_levels(&update(2_999, 7), 1_000);
    assert_eq!(book.asks_text(&vec![text("p", "q")]), "  q @ p  delay=-1µs\n");
    let mut book = LocalOrderBook::new("BTCUSDT", 0, 0);
    book.apply_levels(&update(1_999, 7), 1_000);
    assert_eq!(
        book.bids_text(&vec![text("p", "q"), text("r", "s")]),
        "  q @ p  delay=0µs\n  s @ r  delay=0µs\n",
    );
}

#[test]
fn delay_is_measured_when_an_update_is_applied() {
    let mut book = LocalOrderBook::new("BTCUSDT", 0, 0);
    book.apply_levels(&update(0, 5_000), 9_000);
    assert_eq!(book.asks_text(&vec![text("p", "q")]), "  q @ p  delay=9µs\n");

    let mut book = LocalOrderBook::new("BTCUSDT", 0, 0);
    let exch_ts = now_nanos();
    book.apply(&update(exch_ts, 0));
    let most = (now_nanos() - exch_ts) / 1000;
    let line = book.asks_text(&vec![text("p", "q")]);
    let delay = line.strip_prefix("  q @ p  delay=").unwrap().strip_suffix("µs\n").unwrap();
    let delay: i64 = delay.parse().unwrap();
    assert!(0 <= delay && delay <= most);
}

#[test]
fn line_of_a_passing_update() {
    assert_eq!(
        dry_run_text(&update(5_999_999, 1_000_000)),
        "[dry-run] diff_book_depth  diff  Bid: 2 levels  Ask: 1 levels delay: 4 ms",
    );
    assert_eq!(
        dry_run_text(&update(1_000_000, 5_999_999)),
        "[dry-run] diff_book_depth  diff  Bid: 2 levels  Ask: 1 levels delay: -4 ms",
    );
    let nothing: BookUpdate<[String; 2]> = BookUpdate {
        source: StreamSource::Other("x"),
        exch_ts: 0,
        local_ts: 0,
        bids: vec![],
        asks: vec![],
        is_snapshot: true,
    };
    assert_eq!(
        dry_run_text(&nothing),
        "[dry-run] other(x)  snapshot  no bids  no asks delay: 0 ms",
    );
}

#[test]
fn failures_of_a_connection_are_read_errors() {
    let e = tokio_tungstenite::tungstenite::Error::ConnectionClosed;
    let words = e.to_string();
    assert!(matches!(StreamError::from(e), StreamError::WsRead(m) if m == words));
}

#[test]
fn failures_of_a_request_are_request_errors() {
    let e = reqwest::Proxy::all("::").unwrap_err();
    let words = e.to_string();
    assert!(matches!(HttpError::from(e), HttpError::Request(m) if m == words));
}

#[test]
fn numbers_in_decimal() {
    let mut out = String::from("n=");
    push_decimal(&mut out, 0);
    out.push(' ');
    push_decimal(&mut out, u128::MAX);
    out.push(' ');
    push_signed_decimal(&mut out, i64::MIN);
    out.push(' ');
    push_signed_decimal(&mut out, 907);
    out.push(' ');
    push_padded_decimal(&mut out, 1234567, 6);
    push_padded_decimal(&mut out, 89, 4);
    assert_eq!(
        out,
        "n=0 340282366920938463463374607431768211455 -9223372036854775808 907 1234567  89",
    );
}

#[test]
fn parts_are_joined() {
    assert_eq!(join(&vec![], "/"), "");
    assert_eq!(join(&vec!["a".into()], "/"), "a");
    assert_eq!(join(&vec!["a".into(), "".into(), "c".into()], "/"), "a//c");
}

#[test]
fn errors_in_words() {
    assert_eq!(StreamError::WsRead("reset".into()).to_string(), "WebSocket read error: reset");
    assert_eq!(StreamError::JsonParse("eof".into()).to_string(), "JSON parse error: eof");
    assert_eq!(HttpError::Request("timeout".into()).to_string(), "HTTP error: timeout");
    assert_eq!(HttpError::Parse("eof".into()).to_string(), "HTTP parse error: eof");
}

#[test]
fn parser_errors_keep_their_message() {
    let e = serde_json::from_str::<i64>("x").unwrap_err();
    let words = e.to_string();
    assert!(matches!(StreamError::from(e), StreamError::JsonParse(m) if m == words));
    let e = serde_json::from_str::<i64>("[").unwrap_err();
    let words = e.to_string();
    assert!(matches!(HttpError::from(e), HttpError::Parse(m) if m == words));
}
