use depth_fusion::config::StreamConfig;
use depth_fusion::error::StreamError;
use depth_fusion::source::{identify_source, StreamSource};

#[test]
fn identify_book_ticker() {
    assert_eq!(
        identify_source("btcusdt@bookTicker"),
        Some(StreamSource::BookTicker),
    );
}

#[test]
fn identify_diff_depth() {
    assert_eq!(
        identify_source("btcusdt@depth@100ms"),
        Some(StreamSource::DiffBookDepth),
    );
}

#[test]
fn identify_partial_depth() {
    assert_eq!(
        identify_source("btcusdt@depth20@100ms"),
        Some(StreamSource::PartialBookDepth),
    );
    assert_eq!(
        identify_source("btcusdt@depth20@250ms"),
        Some(StreamSource::PartialBookDepth),
    );
}

#[test]
fn unknown_stream_returns_none() {
    assert_eq!(identify_source("btcusdt@trade"), None);
}

#[test]
fn display_partial_book_depth() {
    assert_eq!(
        StreamSource::PartialBookDepth.to_string(),
        "partial_book_depth",
    );
}

#[test]
fn display_book_ticker() {
    assert_eq!(StreamSource::BookTicker.to_string(), "book_ticker");
}

#[test]
fn display_diff_book_depth() {
    assert_eq!(StreamSource::DiffBookDepth.to_string(), "diff_book_depth");
}

#[test]
fn config_stream_name_book_ticker() {
    let cfg = StreamConfig::book_ticker("BTCUSDT");
    assert_eq!(cfg.stream_name(), "btcusdt@bookTicker");
}

#[test]
fn config_stream_name_partial_depth() {
    let cfg = StreamConfig::partial_depth("ETHUSDT", 20, 100);
    assert_eq!(cfg.stream_name(), "ethusdt@depth20@100ms");
}

#[test]
fn config_stream_name_partial_depth_250() {
    let cfg = StreamConfig::partial_depth("BTCUSDT", 20, 250);
    assert_eq!(cfg.stream_name(), "btcusdt@depth20@250ms");
}

#[test]
fn config_stream_name_diff_depth() {
    let cfg = StreamConfig::diff_depth("BTCUSDT", 100);
    assert_eq!(cfg.stream_name(), "btcusdt@depth@100ms");
}

#[test]
fn stream_config_builders() {
    let bt = StreamConfig::book_ticker("BTCUSDT");
    assert_eq!(bt.stream_name(), "btcusdt@bookTicker");

    let pd = StreamConfig::partial_depth("ETHUSDT", 20, 100);
    assert_eq!(pd.stream_name(), "ethusdt@depth20@100ms");

    let dd = StreamConfig::diff_depth("BTCUSDT", 100);
    assert_eq!(dd.stream_name(), "btcusdt@depth@100ms");
}

#[test]
fn display_stream_source() {
    assert_eq!(StreamSource::PartialBookDepth.to_string(), "partial_book_depth");
    assert_eq!(StreamSource::BookTicker.to_string(), "book_ticker");
    assert_eq!(StreamSource::DiffBookDepth.to_string(), "diff_book_depth");
    assert_eq!(StreamSource::Other("custom").to_string(), "other(custom)");
}

#[test]
fn stream_error_display() {
    let err = StreamError::WsConnect("refused".into());
    assert_eq!(err.to_string(), "WebSocket connect error: refused");

    let err = StreamError::UnknownStream("test".into());
    assert_eq!(err.to_string(), "unknown stream: test");
}

#[test]
fn stream_config_other() {
    let cfg = StreamConfig {
        stream_type: StreamSource::Other("custom_stream"),
        symbol: "BTCUSDT".into(),
        levels: None,
        speed_ms: None,
    };
    assert_eq!(cfg.stream_name(), "custom_stream");
}
