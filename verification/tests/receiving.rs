use depth_fusion::book::{BookUpdate, PriceLevel};
use depth_fusion::clock::{now_nanos, timestamp_of};
use depth_fusion::config::StreamConfig;
use depth_fusion::error::StreamError;
use depth_fusion::receiver::{
    backoff_ms, dry_run_step, DryRunAction, StreamAction, StreamEvent, StreamReceiver,
};
use depth_fusion::source::{identify_source, StreamSource};
use depth_fusion::urls::{snapshot_url, REST_FAPI};

const TICKER: &str =
    r#"{"stream": "x@bookTicker", "data": {"b": "1", "B": "2", "a": "3", "A": "4", "T": 9}}"#;
const TRADE: &str = r#"{"stream": "x@trade", "data": {}}"#;

fn receiver() -> StreamReceiver {
    let configs = vec![
        StreamConfig::book_ticker("BTCUSDT"),
        StreamConfig::partial_depth("BTCUSDT", 5, 100),
        StreamConfig::diff_depth("BTCUSDT", 250),
    ];
    StreamReceiver::new("BTCUSDT", 1.0f64.to_bits(), 0.001f64.to_bits(), configs)
}

fn text(text: &str) -> StreamEvent {
    StreamEvent::Text(text.into(), 5)
}

fn delay(action: StreamAction) -> u64 {
    match action {
        StreamAction::Reconnect { delay_ms } => delay_ms,
        _ => panic!("no reconnect"),
    }
}

#[test]
fn url_names_all_streams() {
    assert_eq!(
        receiver().build_ws_url(),
        "wss://fstream.binance.com/public/stream?streams=\
         btcusdt@bookTicker/btcusdt@depth5@100ms/btcusdt@depth@250ms",
    );
    let none = StreamReceiver::new("BTCUSDT", 0, 0, vec![]);
    assert_eq!(none.build_ws_url(), "wss://fstream.binance.com/public/stream?streams=");
}

#[test]
fn snapshot_url_names_symbol_and_limit() {
    assert_eq!(
        snapshot_url(REST_FAPI, "BTCUSDT", 1000),
        "https://fapi.binance.com/fapi/v1/depth?symbol=BTCUSDT&limit=1000",
    );
}

#[test]
fn new_receiver_has_an_empty_book() {
    let r = receiver();
    assert_eq!(r.book().symbol, "BTCUSDT");
    assert_eq!(f64::from_bits(r.book().tick_size), 1.0);
    assert_eq!(r.book().update_count(), 0);
}

#[test]
fn book_can_be_reached_for_writing() {
    let mut r = receiver();
    r.book_mut().apply(&BookUpdate {
        source: StreamSource::BookTicker,
        exch_ts: 1,
        local_ts: 1,
        bids: vec![PriceLevel::new(1, 1)],
        asks: vec![],
        is_snapshot: true,
    });
    assert_eq!(r.book().bid_depth(), 1);
}

#[test]
fn text_is_converted_then_applied() {
    let mut r = receiver();
    let update = match r.step(text(TICKER)) {
        StreamAction::Convert(update) => update,
        _ => panic!("no update"),
    };
    assert_eq!(update.source, StreamSource::BookTicker);
    assert_eq!((update.exch_ts, update.local_ts), (9_000_000, 5));
    assert_eq!(r.book().update_count(), 0);
    let update = update.with_levels(vec![PriceLevel::new(1, 2)], vec![PriceLevel::new(3, 4)]);
    assert!(matches!(r.step(StreamEvent::Levels(update)), StreamAction::Notify));
    assert_eq!(r.book().update_count(), 1);
    assert_eq!(r.book().best_bid(), Some(PriceLevel::new(1, 2)));
    assert_eq!(r.book().best_ask(), Some(PriceLevel::new(3, 4)));
}

#[test]
fn what_is_no_update_is_skipped_or_reported() {
    let mut r = receiver();
    assert!(matches!(r.step(text(TRADE)), StreamAction::Read));
    assert!(matches!(r.step(StreamEvent::Other), StreamAction::Read));
    assert!(matches!(
        r.step(text("{")),
        StreamAction::Report(StreamError::JsonParse(_))
    ));
    assert_eq!(r.book().update_count(), 0);
}

#[test]
fn waits_double_up_to_thirty_seconds() {
    let mut r = receiver();
    assert_eq!(delay(r.step(StreamEvent::ConnectFailed)), 2_000);
    assert_eq!(delay(r.step(StreamEvent::ReadFailed)), 4_000);
    assert_eq!(delay(r.step(StreamEvent::Ended)), 8_000);
    assert_eq!(delay(r.step(StreamEvent::ConnectFailed)), 16_000);
    assert_eq!(delay(r.step(StreamEvent::ConnectFailed)), 30_000);
    assert_eq!(delay(r.step(StreamEvent::ConnectFailed)), 30_000);
    assert_eq!(delay(r.step(StreamEvent::Closed)), 100);
    assert_eq!(delay(r.step(StreamEvent::ConnectFailed)), 2_000);
    assert_eq!(backoff_ms(0), 1_000);
    assert_eq!(backoff_ms(u64::MAX), 30_000);
}

#[test]
fn dry_run_prints_and_goes_on() {
    for message in [TICKER, TRADE, "", "not a message"] {
        assert!(matches!(
            dry_run_step(3, text(message)),
            (3, DryRunAction::Print(printed)) if printed == message
        ));
    }
    assert!(matches!(dry_run_step(3, StreamEvent::Other), (3, DryRunAction::Read)));
    assert!(matches!(
        dry_run_step(3, StreamEvent::ReadFailed),
        (4, DryRunAction::Reconnect { delay_ms: 16_000 })
    ));
    assert!(matches!(
        dry_run_step(3, StreamEvent::Closed),
        (0, DryRunAction::Reconnect { delay_ms: 100 })
    ));
}

#[test]
fn names_are_identified_as_their_streams() {
    for config in [
        StreamConfig::book_ticker("Btc@depth@"),
        StreamConfig::diff_depth("BTC@BOOKTICKER", 100),
        StreamConfig::partial_depth("BTC@depth2", 10, 100),
        StreamConfig::partial_depth("ÄÖÜ", 10, 100),
        StreamConfig::partial_depth("\u{130}K\u{212A}\u{1E9E}", 0, 0),
        StreamConfig::diff_depth("\u{130}", 1),
        StreamConfig::book_ticker("\u{212A}"),
        StreamConfig::partial_depth("", u32::MAX, u32::MAX),
    ] {
        assert_eq!(identify_source(&config.stream_name()), Some(config.stream_type));
    }
    // The one exception: a pair that looks like the mark of a diff depth stream.
    let config = StreamConfig::partial_depth("BTC@DEPTH", 10, 100);
    assert_eq!(config.stream_name(), "btc@depth@depth10@100ms");
    assert_eq!(identify_source(&config.stream_name()), Some(StreamSource::DiffBookDepth));
}

#[test]
fn partial_depth_needs_digits() {
    assert_eq!(identify_source("btcusdt@depth"), None);
    assert_eq!(identify_source("btcusdt@depthx5@100ms"), None);
    assert_eq!(identify_source("@depth 5"), None);
    assert_eq!(identify_source("@depth\u{665}"), None);
    assert_eq!(identify_source(""), None);
    for digit in '0'..='9' {
        assert_eq!(
            identify_source(&format!("btcusdt@depth@depth{digit}")),
            Some(StreamSource::DiffBookDepth),
        );
        assert_eq!(
            identify_source(&format!("@depthx@depth{digit}")),
            Some(StreamSource::PartialBookDepth),
        );
    }
}

#[test]
fn unset_settings_have_defaults() {
    let mut config = StreamConfig::partial_depth("A", 1, 1);
    config.levels = None;
    config.speed_ms = None;
    assert_eq!(config.stream_name(), "a@depth20@100ms");
    config.stream_type = StreamSource::DiffBookDepth;
    assert_eq!(config.stream_name(), "a@depth@100ms");
    assert_eq!(config.stream_name_for("b"), "b@depth@100ms");
}

#[test]
fn timestamps_of_clock_readings() {
    assert_eq!(timestamp_of(None), 0);
    assert_eq!(timestamp_of(Some(0)), 0);
    assert_eq!(timestamp_of(Some(i64::MAX as u128)), i64::MAX);
    assert_eq!(timestamp_of(Some(i64::MAX as u128 + 1)), i64::MIN);
    assert_eq!(timestamp_of(Some(u128::MAX)), -1);
    // Later than the start of 2020.
    assert!(now_nanos() > 1_577_836_800_000_000_000);
}
