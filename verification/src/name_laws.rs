//! What holds of the names of streams, and of the words for streams and errors.

use vstd::prelude::*;
use crate::config::StreamConfig;
use crate::error::{HttpError, StreamError};
use crate::receiver::stream_names;
use crate::source::{source_of_name, StreamSource};
use crate::text::{decimal, lowercase};
use crate::text_laws::{
    all_digits, decimal_reads_back, digit_stands_right_behind, number_read,
    occurring_is_standing_between,
};

verus! {

/// A name is that of a book ticker where `@bookTicker` stands in it; else that of a
/// diff depth stream where `@depth@` does; else that of a partial depth stream
/// where `@depth` and a digit do. It is that of no other stream.
pub proof fn marks_tell_the_stream(name: Seq<char>)
    ensures
        ({
            let ticker = exists|before: Seq<char>, after: Seq<char>|
                name == #[trigger] (before + "@bookTicker"@ + after);
            let diff = exists|before: Seq<char>, after: Seq<char>|
                name == #[trigger] (before + "@depth@"@ + after);
            let partial = exists|before: Seq<char>, d: char, after: Seq<char>|
                '0' <= d <= '9' && name == #[trigger] (before + "@depth"@ + seq![d] + after);
            &&& ticker ==> source_of_name(name) == Some(StreamSource::BookTicker)
            &&& !ticker && diff ==> source_of_name(name) == Some(StreamSource::DiffBookDepth)
            &&& !ticker && !diff && partial ==> source_of_name(name) == Some(
                StreamSource::PartialBookDepth,
            )
            &&& !ticker && !diff && !partial ==> source_of_name(name) is None
        }),
{
    occurring_is_standing_between(name, "@bookTicker"@);
    occurring_is_standing_between(name, "@depth@"@);
    digit_stands_right_behind(name, "@depth"@);
}

/// The name of a book ticker is the pair and the mark; that of another stream is
/// the one it was given.
pub proof fn names_without_settings(config: StreamConfig, symbol: Seq<char>)
    ensures
        config.stream_type == StreamSource::BookTicker ==> config.name_for(symbol) == symbol
            + "@bookTicker"@,
        config.stream_type matches StreamSource::Other(name) ==> config.name_for(symbol) == name@,
{
}

/// The name of a diff depth stream is the pair, the mark, digits that read as the
/// speed that was set, or as 100 where none was, and `ms`.
pub proof fn diff_depth_name_gives_the_speed(config: StreamConfig, symbol: Seq<char>)
    requires
        config.stream_type == StreamSource::DiffBookDepth,
    ensures
        exists|speed: Seq<char>|
            {
                &&& config.name_for(symbol) == #[trigger] (symbol + "@depth@"@ + speed + "ms"@)
                &&& all_digits(speed)
                &&& number_read(speed) == match config.speed_ms {
                    Some(ms) => ms as int,
                    None => 100,
                }
            },
{
    let ms = match config.speed_ms {
        Some(ms) => ms as nat,
        None => 100,
    };
    decimal_reads_back(ms);
    assert(config.name_for(symbol) == symbol + "@depth@"@ + decimal(ms) + "ms"@);
}

/// The name of a partial depth stream is the pair, the mark, digits that read as
/// the number of levels that was set, or as 20 where none was, an at sign, digits
/// that read as the speed that was set, or as 100 where none was, and `ms`.
pub proof fn partial_depth_name_gives_levels_and_speed(config: StreamConfig, symbol: Seq<char>)
    requires
        config.stream_type == StreamSource::PartialBookDepth,
    ensures
        exists|levels: Seq<char>, speed: Seq<char>|
            {
                &&& config.name_for(symbol) == #[trigger] (symbol + "@depth"@ + levels + "@"@ + speed
                    + "ms"@)
                &&& all_digits(levels)
                &&& all_digits(speed)
                &&& number_read(levels) == match config.levels {
                    Some(n) => n as int,
                    None => 20,
                }
                &&& number_read(speed) == match config.speed_ms {
                    Some(ms) => ms as int,
                    None => 100,
                }
            },
{
    let n = match config.levels {
        Some(n) => n as nat,
        None => 20,
    };
    let ms = match config.speed_ms {
        Some(ms) => ms as nat,
        None => 100,
    };
    decimal_reads_back(n);
    decimal_reads_back(ms);
    assert(config.name_for(symbol) == symbol + "@depth"@ + decimal(n) + "@"@ + decimal(ms) + "ms"@);
}

/// Two texts that end in an at sign, digits and `ms` are the same only where their
/// digits are, and what stands before the at signs.
proof fn lemma_same_tail(a: Seq<char>, s: Seq<char>, b: Seq<char>, t: Seq<char>)
    requires
        all_digits(s),
        all_digits(t),
        a + "@"@ + s + "ms"@ == b + "@"@ + t + "ms"@,
    ensures
        a == b,
        s == t,
{
    reveal_strlit("@");
    reveal_strlit("ms");
    let x = a + "@"@ + s + "ms"@;
    let y = b + "@"@ + t + "ms"@;
    assert(x.len() == a.len() + 1 + s.len() + 2);
    assert(y.len() == b.len() + 1 + t.len() + 2);
    assert(x[a.len() as int] == '@');
    assert(y[b.len() as int] == '@');
    if a.len() > b.len() {
        assert(y[a.len() as int] == t[a.len() - b.len() - 1]);
    }
    if b.len() > a.len() {
        assert(x[b.len() as int] == s[b.len() - a.len() - 1]);
    }
    assert(a =~= x.take(a.len() as int));
    assert(b =~= y.take(b.len() as int));
    assert(s =~= x.subrange(a.len() as int + 1, x.len() - 2));
    assert(t =~= y.subrange(b.len() as int + 1, y.len() - 2));
}

/// Partial depth streams of a pair with different settings have different names.
pub proof fn partial_depth_names_differ(a: StreamConfig, b: StreamConfig, symbol: Seq<char>)
    requires
        a.stream_type == StreamSource::PartialBookDepth,
        b.stream_type == StreamSource::PartialBookDepth,
        a.levels is Some && b.levels is Some && a.speed_ms is Some && b.speed_ms is Some,
        a.levels != b.levels || a.speed_ms != b.speed_ms,
    ensures
        a.name_for(symbol) != b.name_for(symbol),
{
    partial_depth_name_gives_levels_and_speed(a, symbol);
    partial_depth_name_gives_levels_and_speed(b, symbol);
    if a.name_for(symbol) == b.name_for(symbol) {
        let (l, s) = choose|levels: Seq<char>, speed: Seq<char>|
            {
                &&& a.name_for(symbol) == #[trigger] (symbol + "@depth"@ + levels + "@"@ + speed
                    + "ms"@)
                &&& all_digits(levels)
                &&& all_digits(speed)
                &&& number_read(levels) == a.levels->0
                &&& number_read(speed) == a.speed_ms->0
            };
        let (m, t) = choose|levels: Seq<char>, speed: Seq<char>|
            {
                &&& b.name_for(symbol) == #[trigger] (symbol + "@depth"@ + levels + "@"@ + speed
                    + "ms"@)
                &&& all_digits(levels)
                &&& all_digits(speed)
                &&& number_read(levels) == b.levels->0
                &&& number_read(speed) == b.speed_ms->0
            };
        lemma_same_tail(symbol + "@depth"@ + l, s, symbol + "@depth"@ + m, t);
        let n = (symbol + "@depth"@).len() as int;
        assert(l =~= (symbol + "@depth"@ + l).skip(n));
        assert(m =~= (symbol + "@depth"@ + m).skip(n));
    }
}

/// Diff depth streams of a pair with different speeds have different names.
pub proof fn diff_depth_names_differ(a: StreamConfig, b: StreamConfig, symbol: Seq<char>)
    requires
        a.stream_type == StreamSource::DiffBookDepth,
        b.stream_type == StreamSource::DiffBookDepth,
        a.speed_ms is Some && b.speed_ms is Some,
        a.speed_ms != b.speed_ms,
    ensures
        a.name_for(symbol) != b.name_for(symbol),
{
    diff_depth_name_gives_the_speed(a, symbol);
    diff_depth_name_gives_the_speed(b, symbol);
    if a.name_for(symbol) == b.name_for(symbol) {
        let s = choose|speed: Seq<char>|
            {
                &&& a.name_for(symbol) == #[trigger] (symbol + "@depth@"@ + speed + "ms"@)
                &&& all_digits(speed)
                &&& number_read(speed) == a.speed_ms->0
            };
        let t = choose|speed: Seq<char>|
            {
                &&& b.name_for(symbol) == #[trigger] (symbol + "@depth@"@ + speed + "ms"@)
                &&& all_digits(speed)
                &&& number_read(speed) == b.speed_ms->0
            };
        let n = (symbol + "@depth@"@).len() as int;
        reveal_strlit("ms");
        let name = a.name_for(symbol);
        assert(s =~= name.subrange(n, name.len() - 2));
        assert(t =~= name.subrange(n, name.len() - 2));
    }
}

/// The streams of different pairs have different names.
pub proof fn names_of_different_pairs_differ(config: StreamConfig, a: Seq<char>, b: Seq<char>)
    requires
        !(config.stream_type is Other),
        a != b,
    ensures
        config.name_for(a) != config.name_for(b),
{
    let n = match config.speed_ms {
        Some(ms) => ms as nat,
        None => 100,
    };
    let l = match config.levels {
        Some(n) => n as nat,
        None => 20,
    };
    let tail = match config.stream_type {
        StreamSource::BookTicker => "@bookTicker"@,
        StreamSource::DiffBookDepth => "@depth@"@ + decimal(n) + "ms"@,
        _ => "@depth"@ + decimal(l) + "@"@ + decimal(n) + "ms"@,
    };
    assert(config.name_for(a) =~= a + tail);
    assert(config.name_for(b) =~= b + tail);
    assert(a =~= (a + tail).take((a + tail).len() - tail.len()));
    assert(b =~= (b + tail).take((b + tail).len() - tail.len()));
}

/// The streams subscribed to have one name each, in the order of the
/// subscriptions, for their pair in lower case.
pub proof fn one_name_for_each_subscription(configs: Seq<StreamConfig>, i: int)
    ensures
        stream_names(configs).len() == configs.len(),
        0 <= i < configs.len() ==> stream_names(configs)[i] == configs[i].name_for(
            lowercase(configs[i].symbol@),
        ),
{
}

/// Each stream has its own label.
pub proof fn labels_of_streams(source: StreamSource)
    ensures
        match source {
            StreamSource::PartialBookDepth => source.label() == "partial_book_depth"@,
            StreamSource::BookTicker => source.label() == "book_ticker"@,
            StreamSource::DiffBookDepth => source.label() == "diff_book_depth"@,
            StreamSource::Other(name) => source.label() == "other("@ + name@ + ")"@,
        },
{
}

proof fn lemma_first_of_label(source: StreamSource)
    ensures
        source.label()[0] == match source {
            StreamSource::PartialBookDepth => 'p',
            StreamSource::BookTicker => 'b',
            StreamSource::DiffBookDepth => 'd',
            StreamSource::Other(_) => 'o',
        },
{
    reveal_strlit("partial_book_depth");
    reveal_strlit("book_ticker");
    reveal_strlit("diff_book_depth");
    reveal_strlit("other(");
    match source {
        StreamSource::Other(name) => {
            assert(source.label() =~= "other("@ + (name@ + ")"@));
        },
        _ => {},
    }
}

/// Different streams have different labels.
pub proof fn labels_differ(a: StreamSource, b: StreamSource)
    requires
        a.label() == b.label(),
    ensures
        match (a, b) {
            (StreamSource::Other(x), StreamSource::Other(y)) => x@ == y@,
            _ => a == b,
        },
{
    reveal_strlit("other(");
    reveal_strlit(")");
    lemma_first_of_label(a);
    lemma_first_of_label(b);
    match (a, b) {
        (StreamSource::Other(x), StreamSource::Other(y)) => {
            assert(x@ =~= a.label().subrange(6, a.label().len() - 1));
            assert(y@ =~= b.label().subrange(6, b.label().len() - 1));
        },
        _ => {},
    }
}

/// An error in words is what kind of error it is, and the message that it carries.
pub proof fn errors_in_words(e: StreamError, h: HttpError)
    ensures
        match e {
            StreamError::WsConnect(m) => e.message() == "WebSocket connect error: "@ + m@,
            StreamError::WsRead(m) => e.message() == "WebSocket read error: "@ + m@,
            StreamError::JsonParse(m) => e.message() == "JSON parse error: "@ + m@,
            StreamError::UnknownStream(name) => e.message() == "unknown stream: "@ + name@,
        },
        match h {
            HttpError::Request(m) => h.message() == "HTTP error: "@ + m@,
            HttpError::Parse(m) => h.message() == "HTTP parse error: "@ + m@,
        },
{
}

} // verus!
