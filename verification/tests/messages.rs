use depth_fusion::book::{BookUpdate, PriceLevel};
use depth_fusion::error::{HttpError, StreamError};
use depth_fusion::json::{is_repeated, parts_of, TextPart};
use depth_fusion::parse::{
    depth_update, fields_by_name, fields_by_position, on_grid, parse_book_update, parse_levels,
    parse_snapshot, ticker_update, BookTickerEvent, DepthEvent,
};
use depth_fusion::source::StreamSource;

fn number(text: &str) -> f64 {
    text.parse().unwrap()
}

/// Reads pairs of price and quantity the way the book's levels are made, on a
/// grid of half a unit.
fn read(pairs: &Vec<[String; 2]>) -> Vec<[Option<u64>; 2]> {
    pairs
        .iter()
        .map(|[p, q]| {
            [
                p.parse::<f64>().ok().map(|p| (p / 0.5).round() as u64),
                q.parse::<f64>().ok().map(|q| q.to_bits()),
            ]
        })
        .collect()
}

#[test]
fn parse_book_ticker_update() {
    let json = r#"{
            "stream": "btcusdt@bookTicker",
            "data": {
                "u": 400900217,
                "T": 1746057600000,
                "s": "BTCUSDT",
                "b": "96351.4",
                "B": "6.344",
                "a": "96351.5",
                "A": "7.159"
            }
        }"#;

    let update = parse_book_update(json, 0).unwrap();
    assert_eq!(update.source, StreamSource::BookTicker);
    assert!(!update.is_snapshot);
    assert_eq!(update.bids.len(), 1);
    assert_eq!(number(&update.bids[0][0]), 96351.4);
    assert_eq!(number(&update.bids[0][1]), 6.344);
    assert_eq!(update.asks.len(), 1);
    assert_eq!(number(&update.asks[0][0]), 96351.5);
    assert_eq!(number(&update.asks[0][1]), 7.159);
    assert_eq!(update.exch_ts, 1746057600000000000);
    assert_eq!(update.local_ts, 0);
}

#[test]
fn parse_diff_depth_update() {
    let json = r#"{
            "stream": "btcusdt@depth@100ms",
            "data": {
                "e": "depthUpdate",
                "E": 1746057600000,
                "T": 1746057600000,
                "s": "BTCUSDT",
                "U": 157,
                "u": 170,
                "b": [["96351.4","5.001"]],
                "a": [["96355.0","0.000"]]
            }
        }"#;

    let update = parse_book_update(json, 0).unwrap();
    assert_eq!(update.source, StreamSource::DiffBookDepth);
    assert!(!update.is_snapshot);
    assert_eq!(update.bids.len(), 1);
    assert_eq!(number(&update.bids[0][0]), 96351.4);
    assert_eq!(number(&update.bids[0][1]), 5.001);
    assert_eq!(update.asks.len(), 1);
    assert_eq!(number(&update.asks[0][0]), 96355.0);
    assert_eq!(number(&update.asks[0][1]), 0.0);
    assert_eq!(update.exch_ts, 1746057600000000000);
}

#[test]
fn parse_partial_depth_update() {
    let json = r#"{
            "stream": "btcusdt@depth20@100ms",
            "data": {
                "e": "depthUpdate",
                "E": 1746057600000,
                "T": 1746057600000,
                "s": "BTCUSDT",
                "U": 157,
                "u": 170,
                "b": [["96351.4","5.001"]],
                "a": [["96355.0","0.000"]]
            }
        }"#;

    let update = parse_book_update(json, 0).unwrap();
    assert_eq!(update.source, StreamSource::PartialBookDepth);
    assert_eq!(update.bids.len(), 1);
    assert_eq!(update.asks.len(), 1);
}

#[test]
fn parse_unknown_stream_errors() {
    let json = r#"{
            "stream": "btcusdt@trade",
            "data": {}
        }"#;
    assert!(parse_book_update(json, 0).is_err());
    assert!(matches!(
        parse_book_update(json, 0),
        Err(StreamError::UnknownStream(name)) if name == "btcusdt@trade"
    ));
}

#[test]
fn parse_invalid_json_errors() {
    assert!(parse_book_update("not json", 0).is_err());
    assert!(matches!(parse_book_update("not json", 0), Err(StreamError::JsonParse(_))));
}

#[test]
fn parse_levels_empty() {
    let levels: Vec<[String; 2]> = vec![];
    let result = parse_levels(&read(&levels));
    assert!(result.is_empty());
}

#[test]
fn parse_levels_with_data() {
    let levels: Vec<[String; 2]> = vec![
        ["100.5".into(), "2.5".into()],
        ["200.0".into(), "0.0".into()],
    ];
    let result = parse_levels(&read(&levels));
    assert_eq!(result.len(), 2);
    assert_eq!(result[0].price as f64 * 0.5, 100.5);
    assert_eq!(f64::from_bits(result[0].qty), 2.5);
    assert_eq!(result[1].price as f64 * 0.5, 200.0);
    assert_eq!(f64::from_bits(result[1].qty), 0.0);
}

#[test]
fn parse_levels_bad_number_defaults_to_zero() {
    let levels: Vec<[String; 2]> = vec![["not_a_number".into(), "5.0".into()]];
    let result = parse_levels(&read(&levels));
    assert_eq!(result[0].price as f64 * 0.5, 0.0);
    assert_eq!(f64::from_bits(result[0].qty), 5.0);
}

fn malformed(json: &str) -> bool {
    matches!(parse_book_update(json, 0), Err(StreamError::JsonParse(_)))
}

#[test]
fn envelope_needs_both_fields() {
    assert!(malformed(r#"{"data": {}}"#));
    assert!(malformed(r#"{"stream": "btcusdt@trade"}"#));
    assert!(malformed(r#"{"stream": 7, "data": {}}"#));
    assert!(malformed(r#""btcusdt@trade""#));
    assert!(malformed(r#"{"stream": "btcusdt@trade", "data": 1e999}"#));
    assert!(malformed(r#"{"stream": "btcusdt@trade", "data": {}} x"#));
    assert!(!malformed(r#"{"stream": "btcusdt@trade", "data": {}, "more": [1e999]}"#));
}

#[test]
fn missing_field_is_named() {
    let r = parse_book_update(r#"{"stream": "x@depth@100ms", "data": {"E": 1, "b": [], "a": []}}"#, 0);
    assert!(matches!(r, Err(StreamError::JsonParse(m)) if m == "missing field `T`"));
}

#[test]
fn depth_events_need_their_fields() {
    let ok = r#"{"stream": "x@depth@100ms", "data": {"E": 1, "T": 2, "b": [], "a": []}}"#;
    let update = parse_book_update(ok, 5).unwrap();
    assert!(update.bids.is_empty() && update.asks.is_empty());
    assert_eq!((update.exch_ts, update.local_ts), (2_000_000, 5));
    for bad in [
        r#"{"T": 2, "b": [], "a": []}"#,
        r#"{"E": 1, "T": "2", "b": [], "a": []}"#,
        r#"{"E": 1, "T": 2.0, "b": [], "a": []}"#,
        r#"{"E": 1, "T": 9223372036854775808, "b": [], "a": []}"#,
        r#"{"E": 1, "T": 2, "b": [["1"]], "a": []}"#,
        r#"{"E": 1, "T": 2, "b": [["1", "2", "3"]], "a": []}"#,
        r#"{"E": 1, "T": 2, "b": [[1, 2]], "a": []}"#,
        r#"{"E": 1, "T": 2, "b": []}"#,
        r#"null"#,
    ] {
        assert!(malformed(&format!(r#"{{"stream": "x@depth@100ms", "data": {bad}}}"#)));
    }
}

#[test]
fn ticker_event_time_may_be_absent_or_null() {
    let prices = r#""b": "1", "B": "2", "a": "3", "A": "4""#;
    for (fields, fine) in [
        (r#""T": 9"#, true),
        (r#""T": 9, "E": null"#, true),
        (r#""T": 9, "E": 8"#, true),
        (r#""T": 9, "E": "8""#, false),
        (r#""E": 8"#, false),
        (r#""T": null"#, false),
    ] {
        let json = format!(r#"{{"stream": "x@bookTicker", "data": {{{prices}, {fields}}}}}"#);
        assert_eq!(!malformed(&json), fine, "{json}");
    }
}

#[test]
fn records_may_be_arrays() {
    let json = r#"["x@bookTicker", ["1", "2", "3", "4", null, 9]]"#;
    let update = parse_book_update(json, 0).unwrap();
    assert_eq!(update.bids, vec![["1".to_string(), "2".to_string()]]);
    assert_eq!(update.asks, vec![["3".to_string(), "4".to_string()]]);
    assert_eq!(update.exch_ts, 9_000_000);
    assert!(malformed(r#"["x@bookTicker"]"#));
    assert!(malformed(r#"["x@bookTicker", ["1", "2", "3", "4", null, 9], 0]"#));
    assert!(malformed(r#"["x@bookTicker", ["1", "2", "3", "4", 9]]"#));
    let json = r#"["x@depth5@100ms", [1, 2, [["a", "b"]], []]]"#;
    assert_eq!(parse_book_update(json, 0).unwrap().bids.len(), 1);
}

#[test]
fn strings_are_unescaped() {
    let json = r#"{"\u0073tream": "x\u0040\"\\trade", "data": 0}"#;
    assert!(matches!(
        parse_book_update(json, 0),
        Err(StreamError::UnknownStream(name)) if name == "x@\"\\trade"
    ));
}

#[test]
fn parser_messages_are_passed_on() {
    let words = serde_json::from_str::<serde_json::Map<String, serde_json::Value>>("not json")
        .unwrap_err()
        .to_string();
    assert!(matches!(
        parse_book_update("not json", 0),
        Err(StreamError::JsonParse(m)) if m == words
    ));
    let words = serde_json::from_value::<i64>("2".into()).unwrap_err().to_string();
    assert_eq!(words, "invalid type: string \"2\", expected i64");
    assert_eq!(wrong(DIFF, r#"{"E": 1, "T": "2", "b": [], "a": []}"#), words);
    assert!(matches!(
        parse_book_update(r#"{"stream": "x@trade", "data": 0, "data": 0}"#, 0),
        Err(StreamError::JsonParse(m)) if m == "duplicate field `data`"
    ));
    assert!(matches!(
        parse_book_update("[]", 0),
        Err(StreamError::JsonParse(m))
            if m == "invalid length 0, expected struct CombinedPayload with 2 elements"
    ));
    assert!(matches!(
        parse_book_update(r#"["x@trade", 0, 0]"#, 0),
        Err(StreamError::JsonParse(m)) if m == "trailing characters"
    ));
}

const DIFF: &str = "x@depth@1ms";
const PARTIAL: &str = "x@depth5@1ms";
const TICKER: &str = "x@bookTicker";

fn wrong(stream: &str, data: &str) -> String {
    let json = format!(r#"{{"stream": "{stream}", "data": {data}}}"#);
    match parse_book_update(&json, 0) {
        Err(StreamError::JsonParse(message)) => message,
        _ => panic!("not malformed"),
    }
}

#[test]
fn first_thing_wrong_with_an_event_is_told() {
    // Members are read in the order of their names, and missed in that of the fields.
    assert_eq!(
        wrong(DIFF, r#"{"b": 1, "a": "x", "E": 2}"#),
        "invalid type: string \"x\", expected a sequence",
    );
    assert_eq!(wrong(DIFF, r#"{"b": [], "T": 2}"#), "missing field `E`");
    assert_eq!(wrong(DIFF, r#"{"E": 1, "T": 2}"#), "missing field `b`");
    assert_eq!(
        wrong(DIFF, r#"{"E": 1, "T": 2, "b": [], "a": [["1"]]}"#),
        "invalid length 1, expected an array of length 2",
    );
    assert_eq!(
        wrong(TICKER, r#"{"b": 1, "A": 2, "E": "x"}"#),
        "invalid type: integer `2`, expected a string",
    );
    assert_eq!(
        wrong(TICKER, r#"{"b": "1", "B": "2", "a": "3", "A": "4", "E": null}"#),
        "missing field `T`",
    );
}

#[test]
fn first_thing_wrong_with_an_array_is_told() {
    assert_eq!(
        wrong(DIFF, "[1, 2]"),
        "invalid length 2, expected struct DiffDepthEvent with 4 elements",
    );
    assert_eq!(
        wrong(PARTIAL, "[1, 2, []]"),
        "invalid length 3, expected struct PartialDepthEvent with 4 elements",
    );
    assert_eq!(
        wrong(DIFF, "[1, 2, [], [], 5]"),
        "invalid length 5, expected fewer elements in array",
    );
    assert_eq!(wrong(DIFF, "[1, true]"), "invalid type: boolean `true`, expected i64");
    assert_eq!(
        wrong(TICKER, r#"["1", "2", "3", "4"]"#),
        "invalid length 4, expected struct BookTickerEvent with 6 elements",
    );
    assert_eq!(
        wrong(TICKER, r#"["1", "2", "3", "4", null, 6, 7]"#),
        "invalid length 7, expected fewer elements in array",
    );
    assert_eq!(
        wrong(TICKER, r#"[1, 2]"#),
        "invalid type: integer `1`, expected a string",
    );
}

#[test]
fn envelope_gives_no_field_twice() {
    assert!(malformed(r#"{"stream": "x@trade", "stream": "x@trade", "data": 0}"#));
    assert!(malformed(r#"{"stream": "x@trade", "s\u0074ream": "x@trade", "data": 0}"#));
    assert!(malformed(r#"{"data": 0, "stream": "x@trade", "data": 0}"#));
    assert!(!malformed(r#"{"stream": "x@trade", "data": {"stream": 1, "data": {"data": 2}}}"#));
    assert!(!malformed(r#"{"a": "stream", "b": ":", "a": [":"], "stream": "\":", "data": "data"}"#));
}

#[test]
fn events_are_not_too_deep() {
    let message = |depth: usize| {
        let nested = format!("{}{}", "[".repeat(depth), "]".repeat(depth));
        format!(r#"{{"stream": "x@trade", "data": {nested}}}"#)
    };
    assert!(!malformed(&message(126)));
    assert!(malformed(&message(127)));
}

#[test]
fn a_field_of_an_event_may_be_given_twice() {
    let json = r#"{"stream": "x@depth@1ms", "data": {"E": 1, "T": 2, "T": 3, "b": [], "a": []}}"#;
    assert_eq!(parse_book_update(json, 0).unwrap().exch_ts, 3_000_000);
}

fn part(name: &str, value: &str) -> TextPart {
    TextPart { name: name.into(), value: value.into() }
}

#[test]
fn outermost_parts_are_cut_out() {
    assert_eq!(
        parts_of(r#" {"a" : {"b": 1, "c": 2}, "\"c\\": [{"d": "},"}], "e:":":"} "#),
        vec![
            part(r#""a""#, r#" {"b": 1, "c": 2}"#),
            part(r#""\"c\\""#, r#" [{"d": "},"}]"#),
            part(r#""e:""#, r#"":""#),
        ],
    );
    assert_eq!(
        parts_of(r#"["a", {"b": 1},"c,"]"#),
        vec![part("", r#""a""#), part("", r#" {"b": 1}"#), part("", r#""c,""#)],
    );
    assert_eq!(parts_of("{}"), vec![part("", "")]);
    let parts = vec![part(r#""a""#, "1"), part(r#""b""#, "2"), part(r#""\u0061""#, "3")];
    assert!(is_repeated(&parts, "a"));
    assert!(!is_repeated(&parts, "b"));
}

#[test]
fn no_name_of_a_member_is_special() {
    // A member may be called anything, and is then no more than that.
    let token = "$serde_json::private::RawValue";
    let json = format!(r#"{{"stream": "x@trade", "data": {{"{token}": 1}}}}"#);
    assert!(!malformed(&json));
    let list = format!(r#"{{"{token}": "[]"}}"#);
    let json = format!(
        r#"{{"stream": "x@depth@1ms", "data": {{"E": 1, "T": 2, "b": {list}, "a": []}}}}"#
    );
    assert!(malformed(&json));
}

#[test]
fn updates_of_events() {
    let update = ticker_update(
        BookTickerEvent {
            best_bid_price: "1".into(),
            best_bid_qty: "2".into(),
            best_ask_price: "3".into(),
            best_ask_qty: "4".into(),
            event_time: Some(5),
            transaction_time: 6,
        },
        7,
    );
    assert_eq!(update.source, StreamSource::BookTicker);
    assert_eq!((update.exch_ts, update.local_ts), (6_000_000, 7));
    assert_eq!(update.bids, vec![["1".to_string(), "2".to_string()]]);
    assert_eq!(update.asks, vec![["3".to_string(), "4".to_string()]]);
    assert!(!update.is_snapshot);

    let event = DepthEvent {
        event_time: 0,
        transaction_time: -3,
        bids: vec![],
        asks: vec![["3".into(), "4".into()]],
    };
    let update = depth_update(StreamSource::PartialBookDepth, event, 8);
    assert_eq!(update.source, StreamSource::PartialBookDepth);
    assert_eq!((update.exch_ts, update.local_ts), (-3_000_000, 8));
    assert!(update.bids.is_empty());
    assert_eq!(update.asks, vec![["3".to_string(), "4".to_string()]]);
}

#[test]
fn fields_are_found() {
    let members = vec![part(r#""a""#, "1"), part(r#""b""#, "2"), part(r#""\u0061""#, "3")];
    assert_eq!(
        fields_by_name(&members, &vec!["b", "c", "a"]),
        vec![Some("2".to_string()), None, Some("3".to_string())],
    );
    let items = vec![part("", "1"), part("", "2")];
    assert_eq!(
        fields_by_position(&items, 2, 3),
        vec![Some("1".to_string()), Some("2".to_string()), None],
    );
    assert_eq!(fields_by_position(&items, 2, 1), vec![Some("1".to_string())]);
    assert_eq!(fields_by_position(&items, 0, 1), vec![None]);
}

#[test]
fn converted_levels_join_their_update() {
    let json = r#"{"stream": "x@depth5@1ms", "data": {"E": 1, "T": 2, "b": [["1", "2"], ["x", "3"]], "a": [["4", "y"]]}}"#;
    let update = parse_book_update(json, 5).unwrap();
    let (bids, asks) = (read(&update.bids), read(&update.asks));
    let update = on_grid(update, &bids, &asks);
    assert_eq!(update.source, StreamSource::PartialBookDepth);
    assert_eq!((update.exch_ts, update.local_ts), (2_000_000, 5));
    assert!(!update.is_snapshot);
    assert_eq!(
        update.bids,
        vec![PriceLevel::new(2, 2.0f64.to_bits()), PriceLevel::new(0, 3.0f64.to_bits())],
    );
    assert_eq!(update.asks, vec![PriceLevel::new(8, 0)]);
}

#[test]
fn snapshot_responses() {
    let json = r#"{"lastUpdateId": 1, "E": 3, "T": 4, "bids": [["1", "2"]], "asks": []}"#;
    let update: BookUpdate<[String; 2]> = parse_snapshot(json, 9).unwrap();
    assert!(update.is_snapshot);
    assert_eq!(update.source, StreamSource::Other("rest_snapshot"));
    assert_eq!((update.exch_ts, update.local_ts), (4_000_000, 9));
    assert_eq!(update.bids, vec![["1".to_string(), "2".to_string()]]);
    assert!(update.asks.is_empty());
    assert!(matches!(parse_snapshot("oops", 9), Err(HttpError::Parse(_))));
    assert!(matches!(
        parse_snapshot(r#"{"bids": [], "asks": []}"#, 9),
        Err(HttpError::Parse(m)) if m == "missing field `T`"
    ));
}

#[test]
fn levels_change_their_form() {
    let json = r#"{"stream": "x@depth@100ms", "data": {"E": 1, "T": 2, "b": [["1.5", "4"]], "a": []}}"#;
    let update = parse_book_update(json, 5).unwrap();
    let (bids, asks) = (parse_levels(&read(&update.bids)), parse_levels(&read(&update.asks)));
    let update = update.with_levels(bids, asks);
    assert_eq!(update.source, StreamSource::DiffBookDepth);
    assert_eq!((update.exch_ts, update.local_ts), (2_000_000, 5));
    assert_eq!(update.bids[0].price, 3);
    assert!(update.asks.is_empty());
    assert!(!update.is_snapshot);
}
