//! From the messages of the combined stream to updates of the book.

use vstd::prelude::*;
use crate::book::{BookUpdate, PriceLevel};
use crate::error::{HttpError, StreamError};
use crate::json::{
    count_named, is_called, is_named, is_repeated, json_array, json_integer, json_object,
    json_optional_integer, json_pairs, json_string, json_text, json_value, pairs_texts, part_views,
    parts_of, parts_written, read_array, read_integer, read_object, read_optional_integer,
    read_pairs, read_string, read_text, read_value, Part, TextPart,
};
use crate::source::{identify_source, source_of_name, StreamSource};
use crate::text::{decimal, push_decimal};

verus! {

/// The text of the last member called `name`.
pub open spec fn member(parts: Seq<Part>, name: Seq<char>) -> Option<Seq<char>>
    decreases parts.len(),
{
    if parts.len() == 0 {
        None
    } else if is_named(parts.last(), name) {
        Some(parts.last().value)
    } else {
        member(parts.drop_last(), name)
    }
}

/// The fields of a record as a JSON text gives them.
pub struct Record {
    /// The texts of the fields, each of which may be absent.
    pub fields: Seq<Option<Seq<char>>>,
    /// The fields are members of an object. Otherwise they are items of an array.
    pub by_name: bool,
    /// How many fields an array gives.
    pub count: nat,
}

/// The record with the fields `names` that a JSON text holds: an object that has
/// them as members, or an array that has them as items, in this order. Where the
/// text is neither, what is wrong with it.
pub open spec fn record_of(text: Seq<char>, names: Seq<Seq<char>>) -> Result<Record, Seq<char>> {
    let parts = parts_written(text);
    match json_object(text) {
        Ok(_) => Ok(
            Record {
                fields: names.map_values(|name: Seq<char>| member(parts, name)),
                by_name: true,
                count: names.len(),
            },
        ),
        Err(message) => match json_array(text) {
            Ok(count) => Ok(
                Record {
                    fields: Seq::new(names.len(), |i: int| item(parts, count as nat, i)),
                    by_name: false,
                    count: count as nat,
                },
            ),
            Err(_) => Err(message),
        },
    }
}

/// The text of the item `i` of an array of `count` items.
pub open spec fn item(parts: Seq<Part>, count: nat, i: int) -> Option<Seq<char>> {
    if i < count && i < parts.len() {
        Some(parts[i].value)
    } else {
        None
    }
}

/// What is wrong with a record without the field `name`.
pub open spec fn missing(name: Seq<char>) -> Seq<char> {
    "missing field `"@ + name + "`"@
}

/// What is wrong with a record with the field `name` twice.
pub open spec fn duplicate(name: Seq<char>) -> Seq<char> {
    "duplicate field `"@ + name + "`"@
}

/// What is wrong with an array of `count` items where `expected` was expected.
pub open spec fn wrong_length(count: nat, expected: Seq<char>) -> Seq<char> {
    "invalid length "@ + decimal(count) + ", expected "@ + expected
}

impl Record {
    /// What is wrong where the field `i`, called `name`, is absent from a record
    /// that is expected to be `kind`.
    pub open spec fn absence(self, i: int, name: Seq<char>, kind: Seq<char>) -> Option<Seq<char>> {
        if self.fields[i] is Some {
            None
        } else if self.by_name {
            Some(missing(name))
        } else {
            Some(wrong_length(i as nat, kind))
        }
    }

    /// What is wrong where an array has more items than there are fields.
    pub open spec fn surplus(self) -> Option<Seq<char>> {
        if self.count > self.fields.len() {
            Some(wrong_length(self.count, "fewer elements in array"@))
        } else {
            None
        }
    }
}

/// What is wrong, if anything.
pub open spec fn error_in<A>(r: Result<A, Seq<char>>) -> Option<Seq<char>> {
    match r {
        Ok(_) => None,
        Err(message) => Some(message),
    }
}

/// The first of the errors, from position `i` on.
pub open spec fn first_from(errors: Seq<Option<Seq<char>>>, i: nat) -> Option<Seq<char>>
    decreases errors.len() - i,
{
    if i >= errors.len() {
        None
    } else if errors[i as int] is Some {
        errors[i as int]
    } else {
        first_from(errors, i + 1)
    }
}

/// A field as a string, where it is there.
pub open spec fn string_field(field: Option<Seq<char>>) -> Result<Option<Seq<char>>, Seq<char>> {
    match field {
        Some(text) => match json_text(text) {
            Ok(s) => Ok(Some(s)),
            Err(message) => Err(message),
        },
        None => Ok(None),
    }
}

/// A field as an integer, where it is there.
pub open spec fn integer_field(field: Option<Seq<char>>) -> Result<Option<i64>, Seq<char>> {
    match field {
        Some(text) => match json_integer(text) {
            Ok(i) => Ok(Some(i)),
            Err(message) => Err(message),
        },
        None => Ok(None),
    }
}

/// A field that has to be an integer or `null` where it is there.
pub open spec fn optional_integer_field(field: Option<Seq<char>>) -> Result<
    Option<i64>,
    Seq<char>,
> {
    match field {
        Some(text) => json_optional_integer(text),
        None => Ok(None),
    }
}

/// A field as a list of price and quantity, where it is there.
pub open spec fn pairs_field(field: Option<Seq<char>>) -> Result<
    Option<Seq<(Seq<char>, Seq<char>)>>,
    Seq<char>,
> {
    match field {
        Some(text) => match json_pairs(text) {
            Ok(pairs) => Ok(Some(pairs)),
            Err(message) => Err(message),
        },
        None => Ok(None),
    }
}

/// The envelope that Binance wraps the messages of all streams of a connection
/// in: the name of the stream, and the JSON text of the event.
#[derive(Debug, Clone)]
pub struct CombinedPayload {
    pub stream: String,
    pub data: String,
}

/// Diff. or partial book depth event.
#[derive(Debug, Clone)]
pub struct DepthEvent {
    /// Event time (milliseconds).
    pub event_time: i64,
    /// Transaction time (milliseconds).
    pub transaction_time: i64,
    /// Price and quantity of each bid level.
    pub bids: Vec<[String; 2]>,
    /// Price and quantity of each ask level.
    pub asks: Vec<[String; 2]>,
}

/// Individual symbol book ticker event.
#[derive(Debug, Clone)]
pub struct BookTickerEvent {
    pub best_bid_price: String,
    pub best_bid_qty: String,
    pub best_ask_price: String,
    pub best_ask_qty: String,
    /// Event time (milliseconds). Present on futures, may be absent on spot.
    pub event_time: Option<i64>,
    /// Transaction time (milliseconds).
    pub transaction_time: i64,
}

/// The fields of the envelope.
pub open spec fn payload_fields() -> Seq<Seq<char>> {
    seq!["stream"@, "data"@]
}

/// The fields of a depth event.
pub open spec fn depth_fields() -> Seq<Seq<char>> {
    seq!["E"@, "T"@, "b"@, "a"@]
}

/// The fields of a book ticker event.
pub open spec fn ticker_fields() -> Seq<Seq<char>> {
    seq!["b"@, "B"@, "a"@, "A"@, "E"@, "T"@]
}

/// What an envelope holds.
pub struct PayloadView {
    pub stream: Seq<char>,
    pub data: Seq<char>,
}

/// What a depth event holds.
pub struct DepthView {
    pub event_time: i64,
    pub transaction_time: i64,
    pub bids: Seq<(Seq<char>, Seq<char>)>,
    pub asks: Seq<(Seq<char>, Seq<char>)>,
}

/// What a book ticker event holds.
pub struct TickerView {
    pub bid: (Seq<char>, Seq<char>),
    pub ask: (Seq<char>, Seq<char>),
    pub event_time: Option<i64>,
    pub transaction_time: i64,
}

impl View for CombinedPayload {
    type V = PayloadView;

    open spec fn view(&self) -> PayloadView {
        PayloadView { stream: self.stream@, data: self.data@ }
    }
}

impl View for DepthEvent {
    type V = DepthView;

    open spec fn view(&self) -> DepthView {
        DepthView {
            event_time: self.event_time,
            transaction_time: self.transaction_time,
            bids: pairs_texts(self.bids@),
            asks: pairs_texts(self.asks@),
        }
    }
}

impl View for BookTickerEvent {
    type V = TickerView;

    open spec fn view(&self) -> TickerView {
        TickerView {
            bid: (self.best_bid_price@, self.best_bid_qty@),
            ask: (self.best_ask_price@, self.best_ask_qty@),
            event_time: self.event_time,
            transaction_time: self.transaction_time,
        }
    }
}

/// A text is a JSON value, of any kind, that may stand one level deep: how deep
/// a value may be is limited.
pub open spec fn nested_value(text: Seq<char>) -> Result<(), Seq<char>> {
    json_value("["@ + text + "]"@)
}

/// The envelope that a JSON text is, or what is wrong with it. It gives neither
/// of its fields twice.
pub open spec fn payload_of(text: Seq<char>) -> Result<PayloadView, Seq<char>> {
    let parts = parts_written(text);
    let kind = "struct CombinedPayload with 2 elements"@;
    match record_of(text, payload_fields()) {
        Ok(r) => if r.by_name && count_named(parts, "stream"@) > 1 {
            Err(duplicate("stream"@))
        } else if r.by_name && count_named(parts, "data"@) > 1 {
            Err(duplicate("data"@))
        } else if r.absence(0, "stream"@, kind) is Some {
            Err(r.absence(0, "stream"@, kind)->0)
        } else if json_string(r.fields[0]->0) is Err {
            Err(json_string(r.fields[0]->0)->Err_0)
        } else if r.absence(1, "data"@, kind) is Some {
            Err(r.absence(1, "data"@, kind)->0)
        } else if nested_value(r.fields[1]->0) is Err {
            Err(nested_value(r.fields[1]->0)->Err_0)
        } else if r.count > 2 {
            Err("trailing characters"@)
        } else {
            Ok(PayloadView { stream: json_string(r.fields[0]->0)->Ok_0, data: r.fields[1]->0 })
        },
        Err(message) => Err(message),
    }
}

/// The depth event that a record is, or what is wrong with it. Fields that are
/// not what they should be come first, those of an object in the order of their
/// names; then come fields that are absent.
pub open spec fn depth_from(r: Record, kind: Seq<char>) -> Result<DepthView, Seq<char>> {
    let event_time = integer_field(r.fields[0]);
    let transaction_time = integer_field(r.fields[1]);
    let bids = pairs_field(r.fields[2]);
    let asks = pairs_field(r.fields[3]);
    let errors = seq![
        error_in(event_time),
        error_in(transaction_time),
        if r.by_name {
            error_in(asks)
        } else {
            error_in(bids)
        },
        if r.by_name {
            error_in(bids)
        } else {
            error_in(asks)
        },
        r.absence(0, "E"@, kind),
        r.absence(1, "T"@, kind),
        r.absence(2, "b"@, kind),
        r.absence(3, "a"@, kind),
        r.surplus(),
    ];
    match first_from(errors, 0) {
        Some(message) => Err(message),
        None => Ok(
            DepthView {
                event_time: event_time->Ok_0->0,
                transaction_time: transaction_time->Ok_0->0,
                bids: bids->Ok_0->0,
                asks: asks->Ok_0->0,
            },
        ),
    }
}

/// What a depth event is called where an array is too short to be one.
pub open spec fn depth_kind(source: StreamSource) -> Seq<char> {
    if source == StreamSource::DiffBookDepth {
        "struct DiffDepthEvent with 4 elements"@
    } else {
        "struct PartialDepthEvent with 4 elements"@
    }
}

/// The depth event of `source` that a JSON text is, or what is wrong with it.
pub open spec fn depth_of(source: StreamSource, text: Seq<char>) -> Result<DepthView, Seq<char>> {
    match record_of(text, depth_fields()) {
        Ok(r) => depth_from(r, depth_kind(source)),
        Err(message) => Err(message),
    }
}

/// The book ticker event that a record is, or what is wrong with it. Fields that
/// are not what they should be come first, those of an object in the order of
/// their names; then come fields that are absent. An object may go without the
/// event time.
pub open spec fn ticker_from(r: Record) -> Result<TickerView, Seq<char>> {
    let kind = "struct BookTickerEvent with 6 elements"@;
    let bid_price = string_field(r.fields[0]);
    let bid_qty = string_field(r.fields[1]);
    let ask_price = string_field(r.fields[2]);
    let ask_qty = string_field(r.fields[3]);
    let event_time = optional_integer_field(r.fields[4]);
    let transaction_time = integer_field(r.fields[5]);
    let wrong = if r.by_name {
        seq![
            error_in(ask_qty),
            error_in(bid_qty),
            error_in(event_time),
            error_in(transaction_time),
            error_in(ask_price),
            error_in(bid_price),
        ]
    } else {
        seq![
            error_in(bid_price),
            error_in(bid_qty),
            error_in(ask_price),
            error_in(ask_qty),
            error_in(event_time),
            error_in(transaction_time),
        ]
    };
    let errors = wrong + seq![
        r.absence(0, "b"@, kind),
        r.absence(1, "B"@, kind),
        r.absence(2, "a"@, kind),
        r.absence(3, "A"@, kind),
        if r.by_name {
            None
        } else {
            r.absence(4, "E"@, kind)
        },
        r.absence(5, "T"@, kind),
        r.surplus(),
    ];
    match first_from(errors, 0) {
        Some(message) => Err(message),
        None => Ok(
            TickerView {
                bid: (bid_price->Ok_0->0, bid_qty->Ok_0->0),
                ask: (ask_price->Ok_0->0, ask_qty->Ok_0->0),
                event_time: event_time->Ok_0,
                transaction_time: transaction_time->Ok_0->0,
            },
        ),
    }
}

/// The book ticker event that a JSON text is, or what is wrong with it.
pub open spec fn ticker_of(text: Seq<char>) -> Result<TickerView, Seq<char>> {
    match record_of(text, ticker_fields()) {
        Ok(r) => ticker_from(r),
        Err(message) => Err(message),
    }
}

/// What an update with its levels as texts holds.
pub struct UpdateView {
    pub source: StreamSource,
    pub exch_ts: i64,
    pub local_ts: i64,
    pub bids: Seq<(Seq<char>, Seq<char>)>,
    pub asks: Seq<(Seq<char>, Seq<char>)>,
    pub is_snapshot: bool,
}

impl BookUpdate<[String; 2]> {
    /// The update with the texts of its levels.
    pub open spec fn texts(self) -> UpdateView {
        UpdateView {
            source: self.source,
            exch_ts: self.exch_ts,
            local_ts: self.local_ts,
            bids: pairs_texts(self.bids@),
            asks: pairs_texts(self.asks@),
            is_snapshot: self.is_snapshot,
        }
    }
}

/// Milliseconds as nanoseconds.
pub open spec fn nanos(ms: i64) -> i64 {
    ms.wrapping_mul(1_000_000)
}

/// The update that a book ticker event stands for: one bid and one ask.
pub open spec fn ticker_update_view(event: TickerView, local_ts: i64) -> UpdateView {
    UpdateView {
        source: StreamSource::BookTicker,
        exch_ts: nanos(event.transaction_time),
        local_ts,
        bids: seq![event.bid],
        asks: seq![event.ask],
        is_snapshot: false,
    }
}

/// The update that a depth event of `source` stands for.
pub open spec fn depth_update_view(
    source: StreamSource,
    event: DepthView,
    local_ts: i64,
) -> UpdateView {
    UpdateView {
        source,
        exch_ts: nanos(event.transaction_time),
        local_ts,
        bids: event.bids,
        asks: event.asks,
        is_snapshot: false,
    }
}

/// What a message of the combined stream turns out to be.
pub enum Message {
    /// An update of the book.
    Update(UpdateView),
    /// Not JSON, or not a message of its stream, and what is wrong with it.
    Malformed(Seq<char>),
    /// A message of a stream that the book is not fed from.
    UnknownStream(Seq<char>),
}

/// What the message with this text is, received at `local_ts`.
pub open spec fn message_of(text: Seq<char>, local_ts: i64) -> Message {
    match payload_of(text) {
        Ok(payload) => match source_of_name(payload.stream) {
            Some(StreamSource::BookTicker) => match ticker_of(payload.data) {
                Ok(event) => Message::Update(ticker_update_view(event, local_ts)),
                Err(message) => Message::Malformed(message),
            },
            Some(source) => match depth_of(source, payload.data) {
                Ok(event) => Message::Update(depth_update_view(source, event, local_ts)),
                Err(message) => Message::Malformed(message),
            },
            None => Message::UnknownStream(payload.stream),
        },
        Err(message) => Message::Malformed(message),
    }
}

/// The error is a JSON parse failure with this message.
pub open spec fn fails_with(e: StreamError, message: Seq<char>) -> bool {
    e matches StreamError::JsonParse(m) && m@ == message
}

/// The characters of a text that may be missing.
pub open spec fn text_view(text: Option<String>) -> Option<Seq<char>> {
    match text {
        Some(text) => Some(text@),
        None => None,
    }
}

fn find_member(parts: &Vec<TextPart>, name: &str) -> (found: Option<String>)
    ensures
        text_view(found) == member(part_views(parts@), name@),
{
    let ghost views = part_views(parts@);
    assert(views.take(parts.len() as int) =~= views);
    let mut left: usize = parts.len();
    while left > 0
        invariant
            left <= parts.len(),
            views == part_views(parts@),
            member(views, name@) == member(views.take(left as int), name@),
        decreases left,
    {
        left = left - 1;
        assert(views.take(left + 1).last() == parts[left as int]@);
        assert(views.take(left + 1).drop_last() =~= views.take(left as int));
        if is_called(&parts[left], name) {
            return Some(parts[left].value.clone());
        }
    }
    assert(views.take(0).len() == 0);
    None
}

/// The texts of the members called `names`, each of which may be missing.
pub fn fields_by_name(parts: &Vec<TextPart>, names: &Vec<&str>) -> (fields: Vec<Option<String>>)
    ensures
        fields@.map_values(|field: Option<String>| text_view(field)) == names@.map_values(
            |name: &str| member(part_views(parts@), name@),
        ),
{
    let mut fields: Vec<Option<String>> = Vec::new();
    for i in 0..names.len()
        invariant
            fields.len() == i,
            forall|j: int|
                0 <= j < i ==> text_view(#[trigger] fields[j]) == member(
                    part_views(parts@),
                    names[j]@,
                ),
    {
        fields.push(find_member(parts, names[i]));
    }
    assert(fields@.map_values(|field: Option<String>| text_view(field)) =~= names@.map_values(
        |name: &str| member(part_views(parts@), name@),
    ));
    fields
}

/// The texts of the first `count` items as those of `wanted` fields. Fields for
/// which there is no item are absent, and items for which there is no field are
/// left out.
pub fn fields_by_position(parts: &Vec<TextPart>, count: usize, wanted: usize) -> (fields: Vec<
    Option<String>,
>)
    ensures
        fields@.map_values(|field: Option<String>| text_view(field)) == Seq::new(
            wanted as nat,
            |i: int| item(part_views(parts@), count as nat, i),
        ),
{
    let mut fields: Vec<Option<String>> = Vec::new();
    for i in 0..wanted
        invariant
            fields.len() == i,
            forall|j: int|
                0 <= j < i ==> text_view(#[trigger] fields[j]) == item(
                    part_views(parts@),
                    count as nat,
                    j,
                ),
    {
        if i < count && i < parts.len() {
            fields.push(Some(parts[i].value.clone()));
        } else {
            fields.push(None);
        }
    }
    assert(fields@.map_values(|field: Option<String>| text_view(field)) =~= Seq::new(
        wanted as nat,
        |i: int| item(part_views(parts@), count as nat, i),
    ));
    fields
}

/// The fields of a record as they were read.
struct ReadRecord {
    fields: Vec<Option<String>>,
    by_name: bool,
    count: usize,
}

impl View for ReadRecord {
    type V = Record;

    closed spec fn view(&self) -> Record {
        Record {
            fields: self.fields@.map_values(|field: Option<String>| text_view(field)),
            by_name: self.by_name,
            count: self.count as nat,
        }
    }
}

impl ReadRecord {
    /// The value read for field `i`, called `name`, which has to be there.
    fn present<A>(&self, value: Option<A>, i: usize, name: &str, kind: &str) -> (r: Result<
        A,
        StreamError,
    >)
        requires
            i < self@.fields.len(),
            value is Some == self@.fields[i as int] is Some,
        ensures
            match r {
                Ok(v) => value == Some(v) && self@.absence(i as int, name@, kind@) is None,
                Err(e) => {
                    &&& self@.absence(i as int, name@, kind@) is Some
                    &&& fails_with(e, self@.absence(i as int, name@, kind@)->0)
                },
            },
    {
        match value {
            Some(v) => Ok(v),
            None => if self.by_name {
                Err(field_error("missing field `", name))
            } else {
                Err(length_error(i, kind))
            },
        }
    }

    /// An error where an array has more items than there are fields.
    fn no_surplus(&self) -> (r: Result<(), StreamError>)
        ensures
            match r {
                Ok(_) => self@.surplus() is None,
                Err(e) => self@.surplus() is Some && fails_with(e, self@.surplus()->0),
            },
    {
        assert(self@.fields.len() == self.fields.len());
        if self.count > self.fields.len() {
            Err(length_error(self.count, "fewer elements in array"))
        } else {
            Ok(())
        }
    }
}

/// Reads a record with the fields `names`.
fn read_record(text: &str, names: &Vec<&str>) -> (r: Result<ReadRecord, StreamError>)
    ensures
        match r {
            Ok(record) => {
                &&& record.fields.len() == names.len()
                &&& record_of(text@, names@.map_values(|name: &str| name@)) == Ok::<_, Seq<char>>(
                    record@,
                )
            },
            Err(e) => {
                &&& record_of(text@, names@.map_values(|name: &str| name@)) is Err
                &&& fails_with(e, record_of(text@, names@.map_values(|name: &str| name@))->Err_0)
            },
        },
{
    let ghost name_views = names@.map_values(|name: &str| name@);
    let parts = parts_of(text);
    match read_object(text) {
        Ok(_) => {
            let fields = fields_by_name(&parts, names);
            proof {
                let field_views = fields@.map_values(|field: Option<String>| text_view(field));
                assert(fields.len() == field_views.len());
                assert(field_views =~= name_views.map_values(
                    |name: Seq<char>| member(parts_written(text@), name),
                ));
            }
            Ok(ReadRecord { fields, by_name: true, count: names.len() })
        },
        Err(e) => match read_array(text) {
            Ok(count) => {
                let fields = fields_by_position(&parts, count, names.len());
                proof {
                    let field_views = fields@.map_values(|field: Option<String>| text_view(field));
                    assert(fields.len() == field_views.len());
                    assert(field_views =~= Seq::new(
                        name_views.len(),
                        |i: int| item(parts_written(text@), count as nat, i),
                    ));
                }
                Ok(ReadRecord { fields, by_name: false, count })
            },
            Err(_) => Err(StreamError::from(e)),
        },
    }
}

/// The error for a record with something wrong about one of its fields.
fn field_error(what: &str, name: &str) -> (e: StreamError)
    ensures
        fails_with(e, what@ + name@ + "`"@),
{
    let mut message = what.to_owned();
    message.append(name);
    message.append("`");
    StreamError::JsonParse(message)
}

/// The error for an array of `count` items where `expected` was expected.
fn length_error(count: usize, expected: &str) -> (e: StreamError)
    ensures
        fails_with(e, wrong_length(count as nat, expected@)),
{
    let mut message = "invalid length ".to_owned();
    push_decimal(&mut message, count as u128);
    message.append(", expected ");
    message.append(expected);
    StreamError::JsonParse(message)
}

fn get_string(field: &Option<String>) -> (r: Result<Option<String>, StreamError>)
    ensures
        match r {
            Ok(v) => string_field(text_view(*field)) == Ok::<_, Seq<char>>(text_view(v)),
            Err(e) => {
                &&& string_field(text_view(*field)) is Err
                &&& fails_with(e, string_field(text_view(*field))->Err_0)
            },
        },
{
    match field {
        Some(text) => match read_text(text.as_str()) {
            Ok(v) => Ok(Some(v)),
            Err(e) => Err(StreamError::from(e)),
        },
        None => Ok(None),
    }
}

fn get_integer(field: &Option<String>) -> (r: Result<Option<i64>, StreamError>)
    ensures
        match r {
            Ok(v) => integer_field(text_view(*field)) == Ok::<_, Seq<char>>(v),
            Err(e) => {
                &&& integer_field(text_view(*field)) is Err
                &&& fails_with(e, integer_field(text_view(*field))->Err_0)
            },
        },
{
    match field {
        Some(text) => match read_integer(text.as_str()) {
            Ok(v) => Ok(Some(v)),
            Err(e) => Err(StreamError::from(e)),
        },
        None => Ok(None),
    }
}

fn get_optional_integer(field: &Option<String>) -> (r: Result<Option<i64>, StreamError>)
    ensures
        match r {
            Ok(v) => optional_integer_field(text_view(*field)) == Ok::<_, Seq<char>>(v),
            Err(e) => {
                &&& optional_integer_field(text_view(*field)) is Err
                &&& fails_with(e, optional_integer_field(text_view(*field))->Err_0)
            },
        },
{
    match field {
        Some(text) => match read_optional_integer(text.as_str()) {
            Ok(v) => Ok(v),
            Err(e) => Err(StreamError::from(e)),
        },
        None => Ok(None),
    }
}

fn get_pairs(field: &Option<String>) -> (r: Result<Option<Vec<[String; 2]>>, StreamError>)
    ensures
        match r {
            Ok(Some(v)) => pairs_field(text_view(*field)) == Ok::<_, Seq<char>>(
                Some(pairs_texts(v@)),
            ),
            Ok(None) => pairs_field(text_view(*field)) == Ok::<
                Option<Seq<(Seq<char>, Seq<char>)>>,
                Seq<char>,
            >(None),
            Err(e) => {
                &&& pairs_field(text_view(*field)) is Err
                &&& fails_with(e, pairs_field(text_view(*field))->Err_0)
            },
        },
{
    match field {
        Some(text) => match read_pairs(text.as_str()) {
            Ok(v) => Ok(Some(v)),
            Err(e) => Err(StreamError::from(e)),
        },
        None => Ok(None),
    }
}

/// Reads the envelope of a message.
pub fn parse_payload(text: &str) -> (r: Result<CombinedPayload, StreamError>)
    ensures
        match r {
            Ok(payload) => payload_of(text@) == Ok::<_, Seq<char>>(payload@),
            Err(e) => payload_of(text@) is Err && fails_with(e, payload_of(text@)->Err_0),
        },
{
    let kind = "struct CombinedPayload with 2 elements";
    let names = vec!["stream", "data"];
    assert(names@.map_values(|name: &str| name@) =~= payload_fields());
    let record = read_record(text, &names)?;
    let parts = parts_of(text);
    if record.by_name && is_repeated(&parts, "stream") {
        return Err(field_error("duplicate field `", "stream"));
    }
    if record.by_name && is_repeated(&parts, "data") {
        return Err(field_error("duplicate field `", "data"));
    }
    assert(forall|i: int|
        0 <= i < 2 ==> record@.fields[i] == text_view(#[trigger] record.fields[i]));
    let stream = record.present(record.fields[0].clone(), 0, "stream", kind)?;
    let stream = match read_string(stream.as_str()) {
        Ok(stream) => stream,
        Err(e) => return Err(StreamError::from(e)),
    };
    let data = record.present(record.fields[1].clone(), 1, "data", kind)?;
    let mut nested = "[".to_owned();
    nested.append(data.as_str());
    nested.append("]");
    match read_value(nested.as_str()) {
        Ok(_) => {},
        Err(e) => return Err(StreamError::from(e)),
    }
    if record.count > 2 {
        return Err(StreamError::JsonParse("trailing characters".to_owned()));
    }
    Ok(CombinedPayload { stream, data })
}

/// Reads a depth event of `source`.
pub fn parse_depth_event(source: StreamSource, text: &str) -> (r: Result<DepthEvent, StreamError>)
    ensures
        match r {
            Ok(event) => depth_of(source, text@) == Ok::<_, Seq<char>>(event@),
            Err(e) => depth_of(source, text@) is Err && fails_with(e, depth_of(source, text@)->Err_0),
        },
{
    let kind = match source {
        StreamSource::DiffBookDepth => "struct DiffDepthEvent with 4 elements",
        _ => "struct PartialDepthEvent with 4 elements",
    };
    let names = vec!["E", "T", "b", "a"];
    assert(names@.map_values(|name: &str| name@) =~= depth_fields());
    let record = read_record(text, &names)?;
    assert(forall|i: int|
        0 <= i < 4 ==> record@.fields[i] == text_view(#[trigger] record.fields[i]));
    proof {
        reveal_with_fuel(first_from, 10);
    }
    let event_time = get_integer(&record.fields[0])?;
    let transaction_time = get_integer(&record.fields[1])?;
    let (bids, asks) = if record.by_name {
        let asks = get_pairs(&record.fields[3])?;
        let bids = get_pairs(&record.fields[2])?;
        (bids, asks)
    } else {
        let bids = get_pairs(&record.fields[2])?;
        let asks = get_pairs(&record.fields[3])?;
        (bids, asks)
    };
    let event_time = record.present(event_time, 0, "E", kind)?;
    let transaction_time = record.present(transaction_time, 1, "T", kind)?;
    let bids = record.present(bids, 2, "b", kind)?;
    let asks = record.present(asks, 3, "a", kind)?;
    record.no_surplus()?;
    Ok(DepthEvent { event_time, transaction_time, bids, asks })
}

/// Reads a book ticker event.
pub fn parse_ticker_event(text: &str) -> (r: Result<BookTickerEvent, StreamError>)
    ensures
        match r {
            Ok(event) => ticker_of(text@) == Ok::<_, Seq<char>>(event@),
            Err(e) => ticker_of(text@) is Err && fails_with(e, ticker_of(text@)->Err_0),
        },
{
    let kind = "struct BookTickerEvent with 6 elements";
    let names = vec!["b", "B", "a", "A", "E", "T"];
    assert(names@.map_values(|name: &str| name@) =~= ticker_fields());
    let record = read_record(text, &names)?;
    assert(forall|i: int|
        0 <= i < 6 ==> record@.fields[i] == text_view(#[trigger] record.fields[i]));
    proof {
        reveal_with_fuel(first_from, 14);
    }
    let best_bid_price;
    let best_bid_qty;
    let best_ask_price;
    let best_ask_qty;
    let event_time;
    let transaction_time;
    if record.by_name {
        best_ask_qty = get_string(&record.fields[3])?;
        best_bid_qty = get_string(&record.fields[1])?;
        event_time = get_optional_integer(&record.fields[4])?;
        transaction_time = get_integer(&record.fields[5])?;
        best_ask_price = get_string(&record.fields[2])?;
        best_bid_price = get_string(&record.fields[0])?;
    } else {
        best_bid_price = get_string(&record.fields[0])?;
        best_bid_qty = get_string(&record.fields[1])?;
        best_ask_price = get_string(&record.fields[2])?;
        best_ask_qty = get_string(&record.fields[3])?;
        event_time = get_optional_integer(&record.fields[4])?;
        transaction_time = get_integer(&record.fields[5])?;
    }
    let best_bid_price = record.present(best_bid_price, 0, "b", kind)?;
    let best_bid_qty = record.present(best_bid_qty, 1, "B", kind)?;
    let best_ask_price = record.present(best_ask_price, 2, "a", kind)?;
    let best_ask_qty = record.present(best_ask_qty, 3, "A", kind)?;
    if !record.by_name {
        let _ = record.present(record.fields[4].clone(), 4, "E", kind)?;
    }
    let transaction_time = record.present(transaction_time, 5, "T", kind)?;
    record.no_surplus()?;
    Ok(
        BookTickerEvent {
            best_bid_price,
            best_bid_qty,
            best_ask_price,
            best_ask_qty,
            event_time,
            transaction_time,
        },
    )
}

/// The update that a book ticker event stands for.
pub fn ticker_update(event: BookTickerEvent, local_ts: i64) -> (update: BookUpdate<[String; 2]>)
    ensures
        update.texts() == ticker_update_view(event@, local_ts),
{
    let update = BookUpdate {
        source: StreamSource::BookTicker,
        exch_ts: event.transaction_time.wrapping_mul(1_000_000),
        local_ts,
        bids: vec![[event.best_bid_price, event.best_bid_qty]],
        asks: vec![[event.best_ask_price, event.best_ask_qty]],
        is_snapshot: false,
    };
    assert(pairs_texts(update.bids@) =~= seq![event@.bid]);
    assert(pairs_texts(update.asks@) =~= seq![event@.ask]);
    update
}

/// The update that a depth event of `source` stands for.
pub fn depth_update(source: StreamSource, event: DepthEvent, local_ts: i64) -> (update: BookUpdate<
    [String; 2],
>)
    ensures
        update.texts() == depth_update_view(source, event@, local_ts),
{
    BookUpdate {
        source,
        exch_ts: event.transaction_time.wrapping_mul(1_000_000),
        local_ts,
        bids: event.bids,
        asks: event.asks,
        is_snapshot: false,
    }
}

/// Parses a combined-stream JSON text into an update. The levels are the texts
/// that the stream sent.
pub fn parse_book_update(text: &str, local_ts: i64) -> (r: Result<
    BookUpdate<[String; 2]>,
    StreamError,
>)
    ensures
        match r {
            Ok(update) => message_of(text@, local_ts) == Message::Update(update.texts()),
            Err(StreamError::JsonParse(message)) => message_of(text@, local_ts)
                == Message::Malformed(message@),
            Err(StreamError::UnknownStream(name)) => message_of(text@, local_ts)
                == Message::UnknownStream(name@),
            Err(_) => false,
        },
{
    let payload = parse_payload(text)?;
    match identify_source(payload.stream.as_str()) {
        Some(StreamSource::BookTicker) => {
            let event = parse_ticker_event(payload.data.as_str())?;
            Ok(ticker_update(event, local_ts))
        },
        Some(source) => {
            let event = parse_depth_event(source, payload.data.as_str())?;
            Ok(depth_update(source, event, local_ts))
        },
        None => Err(StreamError::UnknownStream(payload.stream)),
    }
}

/// A number as it was read, or zero where the text was no number.
pub open spec fn number_or_zero(number: Option<u64>) -> u64 {
    match number {
        Some(number) => number,
        None => 0,
    }
}

/// Makes levels of pairs of price, in ticks, and quantity, as they were read
/// from text. A number that could not be read counts as zero.
pub fn parse_levels(pairs: &Vec<[Option<u64>; 2]>) -> (levels: Vec<PriceLevel>)
    ensures
        levels@ == levels_read(pairs@),
{
    let mut levels: Vec<PriceLevel> = Vec::new();
    for i in 0..pairs.len()
        invariant
            levels.len() == i,
            forall|j: int|
                0 <= j < i ==> #[trigger] levels[j] == (PriceLevel {
                    price: number_or_zero(pairs[j]@[0]),
                    qty: number_or_zero(pairs[j]@[1]),
                }),
    {
        levels.push(PriceLevel::new(pairs[i][0].unwrap_or(0), pairs[i][1].unwrap_or(0)));
    }
    assert(levels@ =~= levels_read(pairs@));
    levels
}

/// The levels of pairs of price, in ticks, and quantity, as they were read.
pub open spec fn levels_read(pairs: Seq<[Option<u64>; 2]>) -> Seq<PriceLevel> {
    pairs.map_values(
        |pair: [Option<u64>; 2]|
            PriceLevel { price: number_or_zero(pair@[0]), qty: number_or_zero(pair@[1]) },
    )
}

/// Puts the levels of an update on the tick grid of a book. `bids` and `asks` are
/// the prices, in ticks, and quantities that were read from the texts of its bids
/// and asks.
pub fn on_grid(
    update: BookUpdate<[String; 2]>,
    bids: &Vec<[Option<u64>; 2]>,
    asks: &Vec<[Option<u64>; 2]>,
) -> (r: BookUpdate<PriceLevel>)
    ensures
        r.source == update.source,
        r.exch_ts == update.exch_ts,
        r.local_ts == update.local_ts,
        r.is_snapshot == update.is_snapshot,
        r.bids@ == levels_read(bids@),
        r.asks@ == levels_read(asks@),
{
    let bid_levels = parse_levels(bids);
    let ask_levels = parse_levels(asks);
    update.with_levels(bid_levels, ask_levels)
}

/// The fields of a depth snapshot.
pub open spec fn snapshot_fields() -> Seq<Seq<char>> {
    seq!["T"@, "bids"@, "asks"@]
}

/// The update that a depth snapshot stands for, fetched at `local_ts`, or what
/// is wrong with its text.
pub open spec fn snapshot_of(text: Seq<char>, local_ts: i64) -> Result<UpdateView, Seq<char>> {
    match json_value(text) {
        Ok(_) => match record_of(text, snapshot_fields()) {
            Ok(r) => snapshot_from(r, local_ts),
            Err(message) => Err(message),
        },
        Err(message) => Err(message),
    }
}

/// The update that a depth snapshot stands for, or what is wrong with it. Fields
/// that are not what they should be come first, those of an object in the order
/// of their names; then come fields that are absent.
pub open spec fn snapshot_from(r: Record, local_ts: i64) -> Result<UpdateView, Seq<char>> {
    let kind = "struct DepthSnapshot with 3 elements"@;
    let transaction_time = integer_field(r.fields[0]);
    let bids = pairs_field(r.fields[1]);
    let asks = pairs_field(r.fields[2]);
    let errors = seq![
        error_in(transaction_time),
        if r.by_name {
            error_in(asks)
        } else {
            error_in(bids)
        },
        if r.by_name {
            error_in(bids)
        } else {
            error_in(asks)
        },
        r.absence(0, "T"@, kind),
        r.absence(1, "bids"@, kind),
        r.absence(2, "asks"@, kind),
        r.surplus(),
    ];
    match first_from(errors, 0) {
        Some(message) => Err(message),
        None => Ok(
            UpdateView {
                source: StreamSource::Other("rest_snapshot"),
                exch_ts: nanos(transaction_time->Ok_0->0),
                local_ts,
                bids: bids->Ok_0->0,
                asks: asks->Ok_0->0,
                is_snapshot: true,
            },
        ),
    }
}

/// Parses the response to a depth request into a snapshot update.
pub fn parse_snapshot(text: &str, local_ts: i64) -> (r: Result<BookUpdate<[String; 2]>, HttpError>)
    ensures
        match r {
            Ok(update) => snapshot_of(text@, local_ts) == Ok::<_, Seq<char>>(update.texts()),
            Err(HttpError::Parse(message)) => snapshot_of(text@, local_ts) == Err::<
                UpdateView,
                _,
            >(message@),
            Err(_) => false,
        },
{
    match read_value(text) {
        Ok(_) => match read_snapshot(text, local_ts) {
            Ok(update) => Ok(update),
            Err(StreamError::JsonParse(message)) => Err(HttpError::Parse(message)),
            Err(e) => Err(HttpError::Parse(e.to_string())),
        },
        Err(e) => Err(HttpError::from(e)),
    }
}

fn read_snapshot(text: &str, local_ts: i64) -> (r: Result<BookUpdate<[String; 2]>, StreamError>)
    requires
        json_value(text@) is Ok,
    ensures
        match r {
            Ok(update) => snapshot_of(text@, local_ts) == Ok::<_, Seq<char>>(update.texts()),
            Err(e) => {
                &&& snapshot_of(text@, local_ts) is Err
                &&& fails_with(e, snapshot_of(text@, local_ts)->Err_0)
            },
        },
{
    let kind = "struct DepthSnapshot with 3 elements";
    let names = vec!["T", "bids", "asks"];
    assert(names@.map_values(|name: &str| name@) =~= snapshot_fields());
    let record = read_record(text, &names)?;
    assert(forall|i: int|
        0 <= i < 3 ==> record@.fields[i] == text_view(#[trigger] record.fields[i]));
    proof {
        reveal_with_fuel(first_from, 8);
    }
    let transaction_time = get_integer(&record.fields[0])?;
    let (bids, asks) = if record.by_name {
        let asks = get_pairs(&record.fields[2])?;
        let bids = get_pairs(&record.fields[1])?;
        (bids, asks)
    } else {
        let bids = get_pairs(&record.fields[1])?;
        let asks = get_pairs(&record.fields[2])?;
        (bids, asks)
    };
    let transaction_time = record.present(transaction_time, 0, "T", kind)?;
    let bids = record.present(bids, 1, "bids", kind)?;
    let asks = record.present(asks, 2, "asks", kind)?;
    record.no_surplus()?;
    Ok(
        BookUpdate {
            source: StreamSource::Other("rest_snapshot"),
            exch_ts: transaction_time.wrapping_mul(1_000_000),
            local_ts,
            bids,
            asks,
            is_snapshot: true,
        },
    )
}

} // verus!
