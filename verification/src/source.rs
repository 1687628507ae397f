//! The streams that feed the book, and how they are told apart.

use vstd::prelude::*;
use crate::text::{contains, contains_and_digit, has_infix, has_infix_and_digit};

verus! {

/// Identifies which Binance WebSocket stream produced an update.
#[derive(Debug, Clone, Copy, PartialEq, Eq, Hash)]
pub enum StreamSource {
    /// Partial book depth (`<symbol>@depth<levels>@<speed>ms`): periodic
    /// snapshots of the top price levels.
    PartialBookDepth,
    /// Individual symbol book ticker (`<symbol>@bookTicker`): best bid and ask,
    /// on every quote change.
    BookTicker,
    /// Diff. book depth (`<symbol>@depth@<speed>ms`): which price levels
    /// changed, and how.
    DiffBookDepth,
    /// Any other stream, by name.
    Other(&'static str),
}

impl StreamSource {
    /// The label of the stream in reports.
    pub open spec fn label(self) -> Seq<char> {
        match self {
            StreamSource::PartialBookDepth => "partial_book_depth"@,
            StreamSource::BookTicker => "book_ticker"@,
            StreamSource::DiffBookDepth => "diff_book_depth"@,
            StreamSource::Other(name) => "other("@ + name@ + ")"@,
        }
    }

    /// The label of the stream as text.
    pub fn to_string(&self) -> (s: String)
        ensures
            s@ == self.label(),
    {
        match *self {
            StreamSource::PartialBookDepth => "partial_book_depth".to_owned(),
            StreamSource::BookTicker => "book_ticker".to_owned(),
            StreamSource::DiffBookDepth => "diff_book_depth".to_owned(),
            StreamSource::Other(name) => {
                let mut s = "other(".to_owned();
                s.append(name);
                s.append(")");
                s
            },
        }
    }
}

/// The stream that a combined-stream name stands for. The mark of a partial depth
/// stream has the number of levels right behind it.
pub open spec fn source_of_name(stream_name: Seq<char>) -> Option<StreamSource> {
    if has_infix(stream_name, "@bookTicker"@) {
        Some(StreamSource::BookTicker)
    } else if has_infix(stream_name, "@depth@"@) {
        Some(StreamSource::DiffBookDepth)
    } else if has_infix_and_digit(stream_name, "@depth"@) {
        Some(StreamSource::PartialBookDepth)
    } else {
        None
    }
}

/// Identifies the stream source from a Binance combined-stream name.
///
/// The order of the checks matters:
/// 1. `@bookTicker`: book ticker
/// 2. `@depth@`: diff depth, e.g. `btcusdt@depth@100ms`
/// 3. `@depth` and digits: partial depth, e.g. `btcusdt@depth20@100ms`
pub fn identify_source(stream_name: &str) -> (source: Option<StreamSource>)
    ensures
        source == source_of_name(stream_name@),
{
    if contains(stream_name, "@bookTicker") {
        Some(StreamSource::BookTicker)
    } else if contains(stream_name, "@depth@") {
        Some(StreamSource::DiffBookDepth)
    } else if contains_and_digit(stream_name, "@depth") {
        Some(StreamSource::PartialBookDepth)
    } else {
        None
    }
}

} // verus!
