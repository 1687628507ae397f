//! Stream subscriptions and the names that Binance gives them.

use vstd::prelude::*;
use crate::source::{source_of_name, StreamSource};
use crate::text::{
    decimal, has_infix, has_infix_and_digit, infix_at, lemma_char_missing, lemma_decimal_digits,
    lemma_infix_between, lowercase, push_decimal, to_lowercase,
};

verus! {

/// Configuration for a single Binance WebSocket stream subscription.
#[derive(Debug, Clone)]
pub struct StreamConfig {
    /// Which stream type to subscribe to.
    pub stream_type: StreamSource,
    /// Trading pair symbol, e.g. `"BTCUSDT"`.
    pub symbol: String,
    /// Number of levels of a partial depth stream, e.g. 20 for `depth20`.
    /// `None` for the other streams.
    pub levels: Option<u32>,
    /// Update speed in milliseconds, e.g. 100 or 250. `None` for the book
    /// ticker, which has no speed.
    pub speed_ms: Option<u32>,
}

/// The value of an optional setting, or `default` where it was not given.
pub open spec fn setting(given: Option<u32>, default: u32) -> u32 {
    match given {
        Some(value) => value,
        None => default,
    }
}

impl StreamConfig {
    /// The name of the stream, with `symbol` as the lower-case trading pair.
    pub open spec fn name_for(self, symbol: Seq<char>) -> Seq<char> {
        match self.stream_type {
            StreamSource::BookTicker => symbol + "@bookTicker"@,
            StreamSource::DiffBookDepth => symbol + "@depth@"@ + decimal(
                setting(self.speed_ms, 100) as nat,
            ) + "ms"@,
            StreamSource::PartialBookDepth => symbol + "@depth"@ + decimal(
                setting(self.levels, 20) as nat,
            ) + "@"@ + decimal(setting(self.speed_ms, 100) as nat) + "ms"@,
            StreamSource::Other(name) => name@,
        }
    }

    /// The subscription is to one of the streams that the book is fed from, and
    /// its trading pair, in lower case, does not itself make a partial depth
    /// name read as that of a diff depth stream.
    pub open spec fn names_apart(self, symbol: Seq<char>) -> bool {
        match self.stream_type {
            StreamSource::BookTicker => true,
            StreamSource::DiffBookDepth => true,
            StreamSource::PartialBookDepth => !has_infix(symbol + "@"@, "@depth@"@),
            StreamSource::Other(_) => false,
        }
    }

    /// Builds the Binance stream name for combined URLs, e.g.
    /// `btcusdt@bookTicker`.
    ///
    /// The stream that the name is identified as is the one subscribed to, for
    /// every trading pair without an at sign, and for others too that do not
    /// make one name read as another.
    pub fn stream_name(&self) -> (name: String)
        ensures
            name@ == self.name_for(lowercase(self.symbol@)),
            !(self.stream_type is Other) && !self.symbol@.contains('@') ==> source_of_name(name@)
                == Some(self.stream_type),
            self.names_apart(lowercase(self.symbol@)) ==> source_of_name(name@) == Some(
                self.stream_type,
            ),
    {
        let symbol = to_lowercase(self.symbol.as_str());
        let name = self.stream_name_for(symbol.as_str());
        proof {
            if !self.symbol@.contains('@') {
                lemma_plain_pair(symbol@);
            }
            if self.names_apart(symbol@) {
                self.name_identifies_stream(symbol@);
            }
        }
        name
    }

    /// Builds the stream name around a trading pair that is in lower case
    /// already.
    pub fn stream_name_for(&self, symbol: &str) -> (name: String)
        ensures
            name@ == self.name_for(symbol@),
    {
        match self.stream_type {
            StreamSource::BookTicker => {
                let mut name = String::from(symbol);
                name.append("@bookTicker");
                name
            },
            StreamSource::DiffBookDepth => {
                let speed: u32 = self.speed_ms.unwrap_or(100);
                let mut name = String::from(symbol);
                name.append("@depth@");
                push_decimal(&mut name, speed as u128);
                name.append("ms");
                name
            },
            StreamSource::PartialBookDepth => {
                let levels: u32 = self.levels.unwrap_or(20);
                let speed: u32 = self.speed_ms.unwrap_or(100);
                let mut name = String::from(symbol);
                name.append("@depth");
                push_decimal(&mut name, levels as u128);
                name.append("@");
                push_decimal(&mut name, speed as u128);
                name.append("ms");
                name
            },
            StreamSource::Other(name) => String::from(name),
        }
    }

    /// Builds a `StreamConfig` for `@bookTicker`.
    pub fn book_ticker(symbol: impl Into<String>) -> (config: Self)
        ensures
            config.stream_type == StreamSource::BookTicker,
            call_ensures(Into::into, (symbol,), config.symbol),
            config.levels is None,
            config.speed_ms is None,
    {
        StreamConfig {
            stream_type: StreamSource::BookTicker,
            symbol: symbol.into(),
            levels: None,
            speed_ms: None,
        }
    }

    /// Builds a `StreamConfig` for `@depth<levels>@<speed>ms` (partial
    /// snapshot).
    pub fn partial_depth(symbol: impl Into<String>, levels: u32, speed_ms: u32) -> (config: Self)
        ensures
            config.stream_type == StreamSource::PartialBookDepth,
            call_ensures(Into::into, (symbol,), config.symbol),
            config.levels == Some(levels),
            config.speed_ms == Some(speed_ms),
    {
        StreamConfig {
            stream_type: StreamSource::PartialBookDepth,
            symbol: symbol.into(),
            levels: Some(levels),
            speed_ms: Some(speed_ms),
        }
    }

    /// Builds a `StreamConfig` for `@depth@<speed>ms` (diff book depth).
    pub fn diff_depth(symbol: impl Into<String>, speed_ms: u32) -> (config: Self)
        ensures
            config.stream_type == StreamSource::DiffBookDepth,
            call_ensures(Into::into, (symbol,), config.symbol),
            config.levels is None,
            config.speed_ms == Some(speed_ms),
    {
        StreamConfig {
            stream_type: StreamSource::DiffBookDepth,
            symbol: symbol.into(),
            levels: None,
            speed_ms: Some(speed_ms),
        }
    }

    /// The name of a subscription is identified as the stream subscribed to,
    /// for every trading pair without an upper-case letter, the partial depth
    /// stream of a pair that ends in or holds the mark of a diff depth stream
    /// being the exception.
    pub proof fn name_identifies_stream(self, symbol: Seq<char>)
        requires
            forall|i: int| 0 <= i < symbol.len() ==> !('A' <= #[trigger] symbol[i] <= 'Z'),
            self.names_apart(symbol),
        ensures
            source_of_name(self.name_for(symbol)) == Some(self.stream_type),
    {
        let speed = setting(self.speed_ms, 100) as nat;
        let levels = setting(self.levels, 20) as nat;
        match self.stream_type {
            StreamSource::BookTicker => {
                lemma_infix_between(symbol, "@bookTicker"@, seq![]);
                assert(symbol + "@bookTicker"@ + seq![] =~= symbol + "@bookTicker"@);
            },
            StreamSource::DiffBookDepth => {
                lemma_decimal_digits(speed);
                reveal_strlit("ms");
                lemma_diff_name(symbol, decimal(speed) + "ms"@);
                assert(symbol + "@depth@"@ + (decimal(speed) + "ms"@) =~= self.name_for(symbol));
            },
            StreamSource::PartialBookDepth => {
                lemma_decimal_digits(speed);
                lemma_decimal_digits(levels);
                reveal_strlit("@");
                reveal_strlit("ms");
                lemma_partial_name(symbol, decimal(levels), decimal(speed) + "ms"@);
                assert(symbol + "@depth"@ + decimal(levels) + "@"@ + (decimal(speed) + "ms"@)
                    =~= self.name_for(symbol));
            },
            StreamSource::Other(_) => {},
        }
    }
}

/// No upper-case ASCII letter occurs in `s`.
spec fn no_upper(s: Seq<char>) -> bool {
    forall|i: int| 0 <= i < s.len() ==> !('A' <= #[trigger] s[i] <= 'Z')
}

/// Without an at sign in it, a trading pair holds no part of a mark.
proof fn lemma_plain_pair(symbol: Seq<char>)
    requires
        !symbol.contains('@'),
    ensures
        !has_infix(symbol + "@"@, "@depth@"@),
{
    reveal_strlit("@");
    reveal_strlit("@depth@");
    let s = symbol + "@"@;
    assert forall|i: int| !infix_at(s, "@depth@"@, i) by {
        if infix_at(s, "@depth@"@, i) {
            assert(s.subrange(i, i + 7)[0] == s[i]);
            assert(symbol[i] == '@');
        }
    }
}

/// The mark of a book ticker has an upper-case letter in it.
proof fn lemma_no_ticker_mark(name: Seq<char>)
    requires
        no_upper(name),
    ensures
        !has_infix(name, "@bookTicker"@),
{
    reveal_strlit("@bookTicker");
    lemma_char_missing(name, "@bookTicker"@, 5);
}

proof fn lemma_diff_name(symbol: Seq<char>, rest: Seq<char>)
    requires
        no_upper(symbol),
        no_upper(rest),
    ensures
        source_of_name(symbol + "@depth@"@ + rest) == Some(StreamSource::DiffBookDepth),
{
    let name = symbol + "@depth@"@ + rest;
    assert(no_upper(name)) by {
        reveal_strlit("@depth@");
    }
    lemma_no_ticker_mark(name);
    lemma_infix_between(symbol, "@depth@"@, rest);
}

proof fn lemma_partial_name(symbol: Seq<char>, levels: Seq<char>, rest: Seq<char>)
    requires
        no_upper(symbol),
        levels.len() >= 1,
        forall|i: int| 0 <= i < levels.len() ==> '0' <= #[trigger] levels[i] <= '9',
        no_upper(rest),
        forall|i: int| 0 <= i < rest.len() ==> #[trigger] rest[i] != '@',
        !has_infix(symbol + "@"@, "@depth@"@),
    ensures
        source_of_name(symbol + "@depth"@ + levels + "@"@ + rest) == Some(
            StreamSource::PartialBookDepth,
        ),
{
    let name = symbol + "@depth"@ + levels + "@"@ + rest;
    assert(has_infix_and_digit(name, "@depth"@)) by {
        reveal_strlit("@depth");
        let i = symbol.len() as int;
        assert(name.subrange(i, i + 6) =~= "@depth"@);
        assert(infix_at(name, "@depth"@, i));
        assert(name[i + 6] == levels[0]);
    }
    assert(no_upper("@depth"@) && no_upper("@"@)) by {
        reveal_strlit("@depth");
        reveal_strlit("@");
    }
    lemma_no_ticker_mark(name);
    let n = symbol.len() as int;
    let mark = n + 6 + levels.len();
    assert(mark < name.len() && name.take(n + 1) =~= symbol + "@"@) by {
        reveal_strlit("@depth");
        reveal_strlit("@");
    }
    assert forall|j: int| n < j < name.len() && j != mark implies #[trigger] name[j] != '@' by {
        reveal_strlit("@depth");
        reveal_strlit("@");
        if j < n + 6 {
            assert(name[j] == "@depth"@[j - n]);
        } else if j < mark {
            assert(name[j] == levels[j - (n + 6)]);
        } else {
            assert(name[j] == rest[j - (mark + 1)]);
        }
    }
    assert(name[mark - 1] == levels.last()) by {
        reveal_strlit("@depth");
        reveal_strlit("@");
    }
    lemma_no_diff_mark(name, n, mark);
}

/// Where every at sign after position `n` is the one at `mark`, and that one
/// follows a digit, a diff depth mark can only end at `n` or before.
proof fn lemma_no_diff_mark(name: Seq<char>, n: int, mark: int)
    requires
        0 <= n < mark < name.len(),
        forall|j: int| n < j < name.len() && j != mark ==> #[trigger] name[j] != '@',
        '0' <= name[mark - 1] <= '9',
        !has_infix(name.take(n + 1), "@depth@"@),
    ensures
        !has_infix(name, "@depth@"@),
{
    reveal_strlit("@depth@");
    assert forall|i: int| !infix_at(name, "@depth@"@, i) by {
        if infix_at(name, "@depth@"@, i) {
            let found = name.subrange(i, i + 7);
            assert(found == "@depth@"@);
            assert(name[i + 6] == found[6] && name[i + 5] == found[5]);
            if i + 6 <= n {
                assert(name.take(n + 1).subrange(i, i + 7) =~= found);
                assert(infix_at(name.take(n + 1), "@depth@"@, i));
            }
        }
    }
}

} // verus!
