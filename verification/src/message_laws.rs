//! What holds of messages and snapshots: what of their text ends up where.

use vstd::prelude::*;
use crate::book::BookUpdate;
use crate::error::StreamError;
use crate::json::{
    count_named, json_array, json_integer, json_object, json_optional_integer, json_pairs,
    json_string, json_text, json_value, parts_written, Part, TextPart,
};
use crate::parse::{
    fails_with, first_from, levels_read, member, message_of, payload_of, record_of,
    snapshot_of, BookTickerEvent, CombinedPayload, DepthEvent, Message, PayloadView, Record,
};
use crate::source::{source_of_name, StreamSource};
use crate::text::decimal;

verus! {

/// The levels of an update as texts are as many as it has, in their order, each
/// with its price and its quantity; the rest of the update is as it is.
pub proof fn texts_are_those_of_the_update(update: BookUpdate<[String; 2]>, i: int)
    ensures
        update.texts().source == update.source,
        update.texts().exch_ts == update.exch_ts,
        update.texts().local_ts == update.local_ts,
        update.texts().is_snapshot == update.is_snapshot,
        update.texts().bids.len() == update.bids@.len(),
        update.texts().asks.len() == update.asks@.len(),
        0 <= i < update.bids@.len() ==> {
            &&& update.texts().bids[i].0 == update.bids@[i]@[0]@
            &&& update.texts().bids[i].1 == update.bids@[i]@[1]@
        },
        0 <= i < update.asks@.len() ==> {
            &&& update.texts().asks[i].0 == update.asks@[i]@[0]@
            &&& update.texts().asks[i].1 == update.asks@[i]@[1]@
        },
{
}

/// Levels are made of pairs of numbers one for one, in their order: the first
/// number is the price and the second the quantity. What was no number is zero.
pub proof fn levels_are_those_of_the_numbers(pairs: Seq<[Option<u64>; 2]>, i: int)
    ensures
        levels_read(pairs).len() == pairs.len(),
        0 <= i < pairs.len() ==> {
            &&& levels_read(pairs)[i].price == match pairs[i]@[0] {
                Some(price) => price,
                None => 0,
            }
            &&& levels_read(pairs)[i].qty == match pairs[i]@[1] {
                Some(qty) => qty,
                None => 0,
            }
        },
{
}

/// How often a name is given says whether two parts have it.
proof fn lemma_count_named(parts: Seq<Part>, name: Seq<char>)
    ensures
        count_named(parts, name) > 0 <==> exists|i: int|
            0 <= i < parts.len() && json_string((#[trigger] parts[i]).name) == Ok::<_, Seq<char>>(
                name,
            ),
        count_named(parts, name) > 1 <==> exists|i: int, j: int|
            {
                &&& 0 <= i < j < parts.len()
                &&& json_string((#[trigger] parts[i]).name) == Ok::<_, Seq<char>>(name)
                &&& json_string((#[trigger] parts[j]).name) == Ok::<_, Seq<char>>(name)
            },
    decreases parts.len(),
{
    if parts.len() > 0 {
        let rest = parts.drop_last();
        let n = parts.len() - 1;
        lemma_count_named(rest, name);
        let last = json_string(parts[n].name) == Ok::<_, Seq<char>>(name);
        assert(forall|i: int| 0 <= i < n ==> rest[i] == parts[i]);
        if count_named(rest, name) > 0 {
            let i = choose|i: int|
                0 <= i < rest.len() && json_string((#[trigger] rest[i]).name) == Ok::<_, Seq<char>>(
                    name,
                );
            assert(parts[i] == rest[i]);
            if last {
                assert(parts[i].name == rest[i].name && parts[n] == parts.last());
            }
        }
        if count_named(rest, name) > 1 {
            let (i, j) = choose|i: int, j: int|
                {
                    &&& 0 <= i < j < rest.len()
                    &&& json_string((#[trigger] rest[i]).name) == Ok::<_, Seq<char>>(name)
                    &&& json_string((#[trigger] rest[j]).name) == Ok::<_, Seq<char>>(name)
                };
            assert(parts[i] == rest[i] && parts[j] == rest[j]);
        }
        if exists|i: int, j: int|
            {
                &&& 0 <= i < j < parts.len()
                &&& json_string((#[trigger] parts[i]).name) == Ok::<_, Seq<char>>(name)
                &&& json_string((#[trigger] parts[j]).name) == Ok::<_, Seq<char>>(name)
            } {
            let (i, j) = choose|i: int, j: int|
                {
                    &&& 0 <= i < j < parts.len()
                    &&& json_string((#[trigger] parts[i]).name) == Ok::<_, Seq<char>>(name)
                    &&& json_string((#[trigger] parts[j]).name) == Ok::<_, Seq<char>>(name)
                };
            assert(rest[i] == parts[i]);
            if j < n {
                assert(rest[j] == parts[j]);
            }
        }
    }
}

/// The member of a name is the last part with that name, and there is none where no
/// part has it.
proof fn lemma_member(parts: Seq<Part>, name: Seq<char>)
    ensures
        match member(parts, name) {
            Some(value) => exists|k: int|
                {
                    &&& 0 <= k < parts.len()
                    &&& json_string((#[trigger] parts[k]).name) == Ok::<_, Seq<char>>(name)
                    &&& parts[k].value == value
                    &&& forall|m: int|
                        k < m < parts.len() ==> json_string((#[trigger] parts[m]).name) != Ok::<
                            _,
                            Seq<char>,
                        >(name)
                },
            None => forall|k: int|
                0 <= k < parts.len() ==> json_string((#[trigger] parts[k]).name) != Ok::<
                    _,
                    Seq<char>,
                >(name),
        },
    decreases parts.len(),
{
    if parts.len() > 0 {
        let rest = parts.drop_last();
        let n = parts.len() - 1;
        assert(parts[n] == parts.last());
        if json_string(parts[n].name) != Ok::<_, Seq<char>>(name) {
            lemma_member(rest, name);
            assert(forall|i: int| 0 <= i < n ==> rest[i] == parts[i]);
            match member(rest, name) {
                Some(value) => {
                    let k = choose|k: int|
                        {
                            &&& 0 <= k < rest.len()
                            &&& json_string((#[trigger] rest[k]).name) == Ok::<_, Seq<char>>(name)
                            &&& rest[k].value == value
                            &&& forall|m: int|
                                k < m < rest.len() ==> json_string((#[trigger] rest[m]).name)
                                    != Ok::<_, Seq<char>>(name)
                        };
                    assert(parts[k] == rest[k]);
                    assert forall|m: int| k < m < parts.len() implies json_string(
                        (#[trigger] parts[m]).name,
                    ) != Ok::<_, Seq<char>>(name) by {
                        if m < n {
                            assert(rest[m] == parts[m]);
                        }
                    }
                },
                None => {
                    assert forall|k: int| 0 <= k < parts.len() implies json_string(
                        (#[trigger] parts[k]).name,
                    ) != Ok::<_, Seq<char>>(name) by {
                        if k < n {
                            assert(rest[k] == parts[k]);
                        }
                    }
                },
            }
        }
    }
}

/// A record has a field for each name. In an object it is the value of the last
/// member with that name, or absent where there is no such member. In an array it
/// is the item at its own position, or absent where there are fewer items. A text
/// that is neither object nor array is no record.
pub proof fn fields_of_a_record(text: Seq<char>, names: Seq<Seq<char>>, i: int)
    ensures
        ({
            let parts = parts_written(text);
            match record_of(text, names) {
                Ok(r) => {
                    &&& r.fields.len() == names.len()
                    &&& r.by_name == (json_object(text) is Ok)
                    &&& r.by_name && 0 <= i < names.len() ==> match r.fields[i] {
                        Some(value) => exists|k: int|
                            {
                                &&& 0 <= k < parts.len()
                                &&& json_string((#[trigger] parts[k]).name) == Ok::<_, Seq<char>>(
                                    names[i],
                                )
                                &&& parts[k].value == value
                                &&& forall|m: int|
                                    k < m < parts.len() ==> json_string((#[trigger] parts[m]).name)
                                        != Ok::<_, Seq<char>>(names[i])
                            },
                        None => forall|k: int|
                            0 <= k < parts.len() ==> json_string((#[trigger] parts[k]).name)
                                != Ok::<_, Seq<char>>(names[i]),
                    }
                    &&& r.by_name ==> r.count == names.len()
                    &&& !r.by_name ==> {
                        &&& json_array(text) is Ok
                        &&& r.count == json_array(text)->Ok_0
                        &&& 0 <= i < names.len() ==> r.fields[i] == if i < r.count && i
                            < parts.len() {
                            Some(parts[i].value)
                        } else {
                            None
                        }
                    }
                },
                Err(message) => {
                    &&& json_object(text) == Err::<(), _>(message)
                    &&& json_array(text) is Err
                },
            }
        }),
{
    if 0 <= i < names.len() {
        lemma_member(parts_written(text), names[i]);
    }
}

/// The envelope has a stream, which is a string, and data, which is any value that
/// may stand one level deep; it has neither twice and, as an array, nothing else.
/// Both are passed on as they are. Everything else is malformed.
pub proof fn envelope_is_passed_on(text: Seq<char>, r: Record)
    requires
        record_of(text, seq!["stream"@, "data"@]) == Ok::<_, Seq<char>>(r),
    ensures
        ({
            let parts = parts_written(text);
            let twice = |name: Seq<char>|
                exists|i: int, j: int|
                    {
                        &&& 0 <= i < j < parts.len()
                        &&& json_string((#[trigger] parts[i]).name) == Ok::<_, Seq<char>>(name)
                        &&& json_string((#[trigger] parts[j]).name) == Ok::<_, Seq<char>>(name)
                    };
            let well = {
                &&& !(r.by_name && (twice("stream"@) || twice("data"@)))
                &&& r.fields[0] is Some && json_string(r.fields[0]->0) is Ok
                &&& r.fields[1] is Some && json_value("["@ + r.fields[1]->0 + "]"@) is Ok
                &&& r.count <= 2
            };
            match payload_of(text) {
                Ok(p) => well && json_string(r.fields[0]->0) == Ok::<_, Seq<char>>(p.stream)
                    && r.fields[1] == Some(p.data),
                Err(_) => !well,
            }
        }),
{
    lemma_count_named(parts_written(text), "stream"@);
    lemma_count_named(parts_written(text), "data"@);
    assert(crate::parse::payload_fields() =~= seq!["stream"@, "data"@]);
}

/// What is no envelope is malformed, and a message of a stream that is not known
/// is told by the name of the stream, whatever its data.
pub proof fn messages_that_are_no_updates(text: Seq<char>, local_ts: i64)
    ensures
        payload_of(text) matches Err(message) ==> message_of(text, local_ts) == Message::Malformed(
            message,
        ),
        payload_of(text) matches Ok(p) ==> {
            source_of_name(p.stream) is None ==> message_of(text, local_ts)
                == Message::UnknownStream(p.stream)
        },
        record_of(text, seq!["stream"@, "data"@]) matches Err(message) ==> message_of(
            text,
            local_ts,
        ) == Message::Malformed(message),
{
    assert(crate::parse::payload_fields() =~= seq!["stream"@, "data"@]);
}

/// A depth message becomes an update of its stream with every bid and every ask of
/// the message, in their order and nothing else, at the transaction time in
/// nanoseconds. It needs both times and both lists; otherwise it is malformed.
pub proof fn depth_message_becomes_an_update(
    text: Seq<char>,
    local_ts: i64,
    p: PayloadView,
    source: StreamSource,
    r: Record,
)
    requires
        payload_of(text) == Ok::<_, Seq<char>>(p),
        source_of_name(p.stream) == Some(source),
        source == StreamSource::DiffBookDepth || source == StreamSource::PartialBookDepth,
        record_of(p.data, seq!["E"@, "T"@, "b"@, "a"@]) == Ok::<_, Seq<char>>(r),
    ensures
        ({
            let well = {
                &&& r.fields[0] is Some && json_integer(r.fields[0]->0) is Ok
                &&& r.fields[1] is Some && json_integer(r.fields[1]->0) is Ok
                &&& r.fields[2] is Some && json_pairs(r.fields[2]->0) is Ok
                &&& r.fields[3] is Some && json_pairs(r.fields[3]->0) is Ok
                &&& r.count <= 4
            };
            let bids = json_pairs(r.fields[2]->0)->Ok_0;
            let asks = json_pairs(r.fields[3]->0)->Ok_0;
            &&& !well ==> message_of(text, local_ts) is Malformed
            &&& well ==> {
                &&& message_of(text, local_ts) matches Message::Update(u)
                &&& u.source == source
                &&& u.local_ts == local_ts
                &&& !u.is_snapshot
                &&& (u.exch_ts - json_integer(r.fields[1]->0)->Ok_0 * 1_000_000)
                    % 0x1_0000_0000_0000_0000 == 0
                &&& u.bids.len() == bids.len()
                &&& forall|i: int| 0 <= i < bids.len() ==> #[trigger] u.bids[i] == bids[i]
                &&& u.asks.len() == asks.len()
                &&& forall|i: int| 0 <= i < asks.len() ==> #[trigger] u.asks[i] == asks[i]
            }
        }),
{
    reveal_with_fuel(first_from, 10);
    assert(crate::parse::depth_fields() =~= seq!["E"@, "T"@, "b"@, "a"@]);
    fields_of_a_record(p.data, seq!["E"@, "T"@, "b"@, "a"@], 0);
    if json_integer(r.fields[1]->0) is Ok {
        lemma_nanos(json_integer(r.fields[1]->0)->Ok_0);
    }
}

/// Milliseconds in nanoseconds, up to whole turns.
proof fn lemma_nanos(ms: i64)
    ensures
        (crate::parse::nanos(ms) - ms * 1_000_000) % 0x1_0000_0000_0000_0000 == 0,
{
}

/// A book ticker message becomes an update with the best bid and the best ask of
/// the message, at the transaction time in nanoseconds. It needs both prices, both
/// quantities and the transaction time; the event time may go missing from an
/// object, or be null. Otherwise it is malformed.
pub proof fn ticker_message_becomes_an_update(
    text: Seq<char>,
    local_ts: i64,
    p: PayloadView,
    r: Record,
)
    requires
        payload_of(text) == Ok::<_, Seq<char>>(p),
        source_of_name(p.stream) == Some(StreamSource::BookTicker),
        record_of(p.data, seq!["b"@, "B"@, "a"@, "A"@, "E"@, "T"@]) == Ok::<_, Seq<char>>(r),
    ensures
        ({
            let well = {
                &&& r.fields[0] is Some && json_text(r.fields[0]->0) is Ok
                &&& r.fields[1] is Some && json_text(r.fields[1]->0) is Ok
                &&& r.fields[2] is Some && json_text(r.fields[2]->0) is Ok
                &&& r.fields[3] is Some && json_text(r.fields[3]->0) is Ok
                &&& r.fields[4] is Some ==> json_optional_integer(r.fields[4]->0) is Ok
                &&& r.fields[4] is None ==> r.by_name
                &&& r.fields[5] is Some && json_integer(r.fields[5]->0) is Ok
                &&& r.count <= 6
            };
            &&& !well ==> message_of(text, local_ts) is Malformed
            &&& well ==> {
                &&& message_of(text, local_ts) matches Message::Update(u)
                &&& u.source == StreamSource::BookTicker
                &&& u.local_ts == local_ts
                &&& !u.is_snapshot
                &&& (u.exch_ts - json_integer(r.fields[5]->0)->Ok_0 * 1_000_000)
                    % 0x1_0000_0000_0000_0000 == 0
                &&& u.bids.len() == 1
                &&& json_text(r.fields[0]->0) == Ok::<_, Seq<char>>(u.bids[0].0)
                &&& json_text(r.fields[1]->0) == Ok::<_, Seq<char>>(u.bids[0].1)
                &&& u.asks.len() == 1
                &&& json_text(r.fields[2]->0) == Ok::<_, Seq<char>>(u.asks[0].0)
                &&& json_text(r.fields[3]->0) == Ok::<_, Seq<char>>(u.asks[0].1)
            }
        }),
{
    reveal_with_fuel(first_from, 14);
    assert(crate::parse::ticker_fields() =~= seq!["b"@, "B"@, "a"@, "A"@, "E"@, "T"@]);
    fields_of_a_record(p.data, seq!["b"@, "B"@, "a"@, "A"@, "E"@, "T"@], 0);
    if json_integer(r.fields[5]->0) is Ok {
        lemma_nanos(json_integer(r.fields[5]->0)->Ok_0);
    }
}

/// An event that is no record is malformed.
pub proof fn event_that_is_no_record(text: Seq<char>, local_ts: i64, p: PayloadView)
    requires
        payload_of(text) == Ok::<_, Seq<char>>(p),
        source_of_name(p.stream) is Some,
        json_object(p.data) is Err,
        json_array(p.data) is Err,
    ensures
        message_of(text, local_ts) == Message::Malformed(json_object(p.data)->Err_0),
{
}

/// A depth snapshot becomes a snapshot update with every bid and every ask of the
/// response, in their order and nothing else, at the transaction time in
/// nanoseconds. It needs that time and both lists.
pub proof fn snapshot_becomes_an_update(text: Seq<char>, local_ts: i64, r: Record)
    requires
        json_value(text) is Ok,
        record_of(text, seq!["T"@, "bids"@, "asks"@]) == Ok::<_, Seq<char>>(r),
    ensures
        ({
            let well = {
                &&& r.fields[0] is Some && json_integer(r.fields[0]->0) is Ok
                &&& r.fields[1] is Some && json_pairs(r.fields[1]->0) is Ok
                &&& r.fields[2] is Some && json_pairs(r.fields[2]->0) is Ok
                &&& r.count <= 3
            };
            let bids = json_pairs(r.fields[1]->0)->Ok_0;
            let asks = json_pairs(r.fields[2]->0)->Ok_0;
            match snapshot_of(text, local_ts) {
                Ok(u) => {
                    &&& well
                    &&& u.is_snapshot
                    &&& u.source == StreamSource::Other("rest_snapshot")
                    &&& u.local_ts == local_ts
                    &&& (u.exch_ts - json_integer(r.fields[0]->0)->Ok_0 * 1_000_000)
                        % 0x1_0000_0000_0000_0000 == 0
                    &&& u.bids.len() == bids.len()
                    &&& forall|i: int| 0 <= i < bids.len() ==> #[trigger] u.bids[i] == bids[i]
                    &&& u.asks.len() == asks.len()
                    &&& forall|i: int| 0 <= i < asks.len() ==> #[trigger] u.asks[i] == asks[i]
                },
                Err(_) => !well,
            }
        }),
{
    reveal_with_fuel(first_from, 8);
    assert(crate::parse::snapshot_fields() =~= seq!["T"@, "bids"@, "asks"@]);
    fields_of_a_record(text, seq!["T"@, "bids"@, "asks"@], 0);
    if json_integer(r.fields[0]->0) is Ok {
        lemma_nanos(json_integer(r.fields[0]->0)->Ok_0);
    }
}

/// What is wrong with a malformed depth message is told of the first thing that is:
/// of the fields that are there and are not what they should be, in the order of
/// their names for an object and of their places for an array; then of the fields
/// that are absent, in their order; then of items too many.
pub proof fn malformed_depth_message_says_why(
    text: Seq<char>,
    local_ts: i64,
    p: PayloadView,
    source: StreamSource,
    r: Record,
    message: Seq<char>,
)
    requires
        payload_of(text) == Ok::<_, Seq<char>>(p),
        source_of_name(p.stream) == Some(source),
        source == StreamSource::DiffBookDepth || source == StreamSource::PartialBookDepth,
        record_of(p.data, seq!["E"@, "T"@, "b"@, "a"@]) == Ok::<_, Seq<char>>(r),
        message_of(text, local_ts) == Message::Malformed(message),
    ensures
        ({
            let f = r.fields;
            let wrong_time = |i: int| f[i] is Some && json_integer(f[i]->0) is Err;
            let wrong_list = |i: int| f[i] is Some && json_pairs(f[i]->0) is Err;
            let kind = if source == StreamSource::DiffBookDepth {
                "struct DiffDepthEvent with 4 elements"@
            } else {
                "struct PartialDepthEvent with 4 elements"@
            };
            let first: int = if r.by_name {
                3
            } else {
                2
            };
            let second: int = if r.by_name {
                2
            } else {
                3
            };
            message == if wrong_time(0) {
                json_integer(f[0]->0)->Err_0
            } else if wrong_time(1) {
                json_integer(f[1]->0)->Err_0
            } else if wrong_list(first) {
                json_pairs(f[first]->0)->Err_0
            } else if wrong_list(second) {
                json_pairs(f[second]->0)->Err_0
            } else if r.by_name {
                "missing field `"@ + (if f[0] is None {
                    "E"@
                } else if f[1] is None {
                    "T"@
                } else if f[2] is None {
                    "b"@
                } else {
                    "a"@
                }) + "`"@
            } else if r.count < 4 {
                "invalid length "@ + decimal(
                    if f[0] is None {
                        0nat
                    } else if f[1] is None {
                        1
                    } else if f[2] is None {
                        2
                    } else {
                        3
                    },
                ) + ", expected "@ + kind
            } else if f[0] is Some && f[1] is Some && f[2] is Some && f[3] is Some {
                "invalid length "@ + decimal(r.count) + ", expected fewer elements in array"@
            } else {
                message
            }
        }),
{
    reveal_with_fuel(first_from, 10);
    assert(crate::parse::depth_fields() =~= seq!["E"@, "T"@, "b"@, "a"@]);
    fields_of_a_record(p.data, seq!["E"@, "T"@, "b"@, "a"@], 0);
    fields_of_a_record(p.data, seq!["E"@, "T"@, "b"@, "a"@], 1);
    fields_of_a_record(p.data, seq!["E"@, "T"@, "b"@, "a"@], 2);
    fields_of_a_record(p.data, seq!["E"@, "T"@, "b"@, "a"@], 3);
    let few = "invalid length "@ + decimal(r.count) + ", expected fewer elements in array"@;
    assert("invalid length "@ + decimal(r.count) + ", expected "@ + "fewer elements in array"@
        =~= few) by {
        reveal_strlit(", expected ");
        reveal_strlit("fewer elements in array");
        reveal_strlit(", expected fewer elements in array");
        assert(", expected "@ + "fewer elements in array"@
            =~= ", expected fewer elements in array"@);
    }
}

/// What is wrong with a malformed book ticker message is told of the first thing
/// that is, by the same order.
pub proof fn malformed_ticker_message_says_why(
    text: Seq<char>,
    local_ts: i64,
    p: PayloadView,
    r: Record,
    message: Seq<char>,
)
    requires
        payload_of(text) == Ok::<_, Seq<char>>(p),
        source_of_name(p.stream) == Some(StreamSource::BookTicker),
        record_of(p.data, seq!["b"@, "B"@, "a"@, "A"@, "E"@, "T"@]) == Ok::<_, Seq<char>>(r),
        message_of(text, local_ts) == Message::Malformed(message),
        r.by_name,
    ensures
        ({
            let f = r.fields;
            let wrong = |i: int| f[i] is Some && json_text(f[i]->0) is Err;
            message == if wrong(3) {
                json_text(f[3]->0)->Err_0
            } else if wrong(1) {
                json_text(f[1]->0)->Err_0
            } else if f[4] is Some && json_optional_integer(f[4]->0) is Err {
                json_optional_integer(f[4]->0)->Err_0
            } else if f[5] is Some && json_integer(f[5]->0) is Err {
                json_integer(f[5]->0)->Err_0
            } else if wrong(2) {
                json_text(f[2]->0)->Err_0
            } else if wrong(0) {
                json_text(f[0]->0)->Err_0
            } else {
                "missing field `"@ + (if f[0] is None {
                    "b"@
                } else if f[1] is None {
                    "B"@
                } else if f[2] is None {
                    "a"@
                } else if f[3] is None {
                    "A"@
                } else {
                    "T"@
                }) + "`"@
            }
        }),
{
    reveal_with_fuel(first_from, 14);
    assert(crate::parse::ticker_fields() =~= seq!["b"@, "B"@, "a"@, "A"@, "E"@, "T"@]);
    fields_of_a_record(p.data, seq!["b"@, "B"@, "a"@, "A"@, "E"@, "T"@], 0);
}

/// What is wrong with an envelope that is an object: a field that is there twice, a
/// field that is missing, or what the parser says of the stream or of the data.
pub proof fn malformed_envelope_says_why(text: Seq<char>, r: Record, message: Seq<char>)
    requires
        record_of(text, seq!["stream"@, "data"@]) == Ok::<_, Seq<char>>(r),
        r.by_name,
        payload_of(text) == Err::<PayloadView, _>(message),
    ensures
        ({
            let parts = parts_written(text);
            let twice = |name: Seq<char>|
                exists|i: int, j: int|
                    {
                        &&& 0 <= i < j < parts.len()
                        &&& json_string((#[trigger] parts[i]).name) == Ok::<_, Seq<char>>(name)
                        &&& json_string((#[trigger] parts[j]).name) == Ok::<_, Seq<char>>(name)
                    };
            message == if twice("stream"@) {
                "duplicate field `"@ + "stream"@ + "`"@
            } else if twice("data"@) {
                "duplicate field `"@ + "data"@ + "`"@
            } else if r.fields[0] is None {
                "missing field `"@ + "stream"@ + "`"@
            } else if json_string(r.fields[0]->0) is Err {
                json_string(r.fields[0]->0)->Err_0
            } else if r.fields[1] is None {
                "missing field `"@ + "data"@ + "`"@
            } else {
                json_value("["@ + r.fields[1]->0 + "]"@)->Err_0
            }
        }),
{
    lemma_count_named(parts_written(text), "stream"@);
    lemma_count_named(parts_written(text), "data"@);
    assert(crate::parse::payload_fields() =~= seq!["stream"@, "data"@]);
    fields_of_a_record(text, seq!["stream"@, "data"@], 0);
}

/// What events, envelopes and parts hold is what their fields say.
pub proof fn fields_of_events(
    payload: CombinedPayload,
    depth: DepthEvent,
    ticker: BookTickerEvent,
    part: TextPart,
    i: int,
)
    ensures
        payload@.stream == payload.stream@ && payload@.data == payload.data@,
        depth@.event_time == depth.event_time,
        depth@.transaction_time == depth.transaction_time,
        depth@.bids.len() == depth.bids@.len() && depth@.asks.len() == depth.asks@.len(),
        0 <= i < depth.bids@.len() ==> depth@.bids[i] == (
            depth.bids@[i]@[0]@,
            depth.bids@[i]@[1]@,
        ),
        0 <= i < depth.asks@.len() ==> depth@.asks[i] == (
            depth.asks@[i]@[0]@,
            depth.asks@[i]@[1]@,
        ),
        ticker@.bid == (ticker.best_bid_price@, ticker.best_bid_qty@),
        ticker@.ask == (ticker.best_ask_price@, ticker.best_ask_qty@),
        ticker@.event_time == ticker.event_time,
        ticker@.transaction_time == ticker.transaction_time,
        part@.name == part.name@ && part@.value == part.value@,
{
}

/// What is said of a field that is absent: that it is missing from an object, or
/// how many items an array has and what it should have been.
pub proof fn absent_fields_are_named(r: Record, i: int, name: Seq<char>, kind: Seq<char>)
    requires
        0 <= i < r.fields.len(),
    ensures
        r.fields[i] is Some ==> r.absence(i, name, kind) is None,
        r.fields[i] is None && r.by_name ==> r.absence(i, name, kind) == Some(
            "missing field `"@ + name + "`"@,
        ),
        r.fields[i] is None && !r.by_name ==> r.absence(i, name, kind) == Some(
            "invalid length "@ + decimal(i as nat) + ", expected "@ + kind,
        ),
{
}

/// An error that fails with a message is a JSON parse failure that carries it.
pub proof fn failures_carry_their_message(e: StreamError, message: Seq<char>)
    ensures
        fails_with(e, message) <==> (e is JsonParse && e->JsonParse_0@ == message),
{
}

} // verus!
