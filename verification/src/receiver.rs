//! The stream receiver: what to connect to, what to do with what comes in, and
//! when to try again.

use vstd::arithmetic::power2::pow2;
use vstd::prelude::*;
use crate::book::{BookState, BookUpdate, LocalOrderBook, PriceLevel};
use crate::config::StreamConfig;
use crate::error::StreamError;
use crate::parse::{fails_with, message_of, parse_book_update, Message};
use crate::text::{
    has_infix, join, joined, lemma_infix_between, lemma_joined_around, lowercase,
};
use crate::urls::WS_B;

verus! {

/// The longest wait between two attempts to connect, in seconds.
pub const MAX_BACKOFF_SECS: u64 = 30;

/// The wait after a connection that the server closed, in milliseconds.
pub const CLEAN_CLOSE_DELAY_MS: u64 = 100;

/// How long to wait after the given number of failures, in seconds: exponential
/// backoff, capped.
pub open spec fn backoff_secs(failures: u64) -> nat {
    if pow2(failures as nat) <= MAX_BACKOFF_SECS {
        pow2(failures as nat)
    } else {
        MAX_BACKOFF_SECS as nat
    }
}

/// The wait after the given number of failures, in milliseconds.
pub fn backoff_ms(failures: u64) -> (ms: u64)
    ensures
        ms == 1000 * backoff_secs(failures),
{
    proof {
        vstd::arithmetic::power2::lemma2_to64();
        if failures >= 5 {
            if failures > 5 {
                vstd::arithmetic::power2::lemma_pow2_strictly_increases(5, failures as nat);
            }
        }
    }
    if failures == 0 {
        1000
    } else if failures == 1 {
        2000
    } else if failures == 2 {
        4000
    } else if failures == 3 {
        8000
    } else if failures == 4 {
        16000
    } else {
        1000 * MAX_BACKOFF_SECS
    }
}

/// What happened on the connection.
pub enum StreamEvent {
    /// The connection could not be made.
    ConnectFailed,
    /// A text message came, at this local time.
    Text(String, i64),
    /// The levels of an update that was to be converted.
    Levels(BookUpdate<PriceLevel>),
    /// The server closed the connection.
    Closed,
    /// Reading from the connection failed.
    ReadFailed,
    /// The connection is at its end.
    Ended,
    /// Anything else: a ping, a pong, a binary message.
    Other,
}

/// What to do next.
pub enum StreamAction {
    /// Read on.
    Read,
    /// Put the levels of this update on the tick grid of the book and come back
    /// with them.
    Convert(BookUpdate<[String; 2]>),
    /// Tell the listener that the book has changed, and read on.
    Notify,
    /// Report the error, and read on.
    Report(StreamError),
    /// Wait for so long, and connect again.
    Reconnect { delay_ms: u64 },
}

/// What a dry run does next.
pub enum DryRunAction {
    /// Read on.
    Read,
    /// Print the message as it came, and read on.
    Print(String),
    /// Wait for so long, and connect again.
    Reconnect { delay_ms: u64 },
}

/// Maintains a multiplexed WebSocket connection to Binance combined streams,
/// parses updates, and applies them to an internal [`LocalOrderBook`].
///
/// A single connection subscribes to all configured streams. That keeps the
/// messages in true chronological order.
///
/// On disconnect, the receiver reconnects with exponential backoff.
pub struct StreamReceiver {
    book: LocalOrderBook,
    configs: Vec<StreamConfig>,
    reconnect_attempt: u64,
}

/// Everything that a receiver holds.
#[verifier::ext_equal]
pub struct ReceiverState {
    /// The order book being maintained.
    pub book: LocalOrderBook,
    /// The stream subscriptions.
    pub configs: Seq<StreamConfig>,
    /// The failures to connect, or to stay connected, since the server last
    /// closed a connection of its own accord.
    pub reconnect_attempt: u64,
}

impl View for StreamReceiver {
    type V = ReceiverState;

    closed spec fn view(&self) -> ReceiverState {
        ReceiverState {
            book: self.book,
            configs: self.configs@,
            reconnect_attempt: self.reconnect_attempt,
        }
    }
}

/// The names of the streams subscribed to.
pub open spec fn stream_names(configs: Seq<StreamConfig>) -> Seq<Seq<char>> {
    configs.map_values(|config: StreamConfig| config.name_for(lowercase(config.symbol@)))
}

impl ReceiverState {
    /// The receiver after one more failure.
    pub open spec fn after_failure(self) -> ReceiverState {
        ReceiverState { reconnect_attempt: self.reconnect_attempt.wrapping_add(1), ..self }
    }
}

impl StreamReceiver {
    /// Creates a new `StreamReceiver` for the given symbol and stream configs.
    ///
    /// `tick_size` and `lot_size` are forwarded to [`LocalOrderBook::new`].
    pub fn new(
        symbol: impl Into<String>,
        tick_size: u64,
        lot_size: u64,
        configs: Vec<StreamConfig>,
    ) -> (receiver: Self)
        ensures
            call_ensures(Into::into, (symbol,), receiver@.book@.symbol),
            receiver@.book@ == BookState::empty(receiver@.book@.symbol, tick_size, lot_size),
            receiver@.configs == configs@,
            receiver@.reconnect_attempt == 0,
    {
        StreamReceiver {
            book: LocalOrderBook::new(symbol, tick_size, lot_size),
            configs,
            reconnect_attempt: 0,
        }
    }

    /// Immutable reference to the internal order book.
    pub fn book(&self) -> (book: &LocalOrderBook)
        ensures
            *book == self@.book,
    {
        &self.book
    }

    /// Mutable reference to the internal order book.
    pub fn book_mut(&mut self) -> (book: &mut LocalOrderBook)
        ensures
            *book == old(self)@.book,
            final(self)@ == (ReceiverState { book: *final(book), ..old(self)@ }),
    {
        &mut self.book
    }

    /// Builds the combined-streams WebSocket URL from all configs.
    pub fn build_ws_url(&self) -> (url: String)
        ensures
            url@ == WS_B@ + "?streams="@ + joined(stream_names(self@.configs), "/"@),
    {
        let mut names: Vec<String> = Vec::new();
        for i in 0..self.configs.len()
            invariant
                names.len() == i,
                forall|j: int|
                    0 <= j < i ==> (#[trigger] names[j])@ == self.configs[j].name_for(
                        lowercase(self.configs[j].symbol@),
                    ),
        {
            names.push(self.configs[i].stream_name());
        }
        assert(names@.map_values(|p: String| p@) =~= stream_names(self@.configs));
        let mut url = String::from(WS_B);
        url.append("?streams=");
        url.append(join(&names, "/").as_str());
        url
    }

    /// What a run of the receiver does when `event` has happened.
    ///
    /// Updates are applied to the book and the listener is told of them.
    /// Messages of streams that are not known are skipped. A connection that
    /// the server closed is made anew after a moment; one that failed, after a
    /// wait that grows exponentially with the failures since then, up to 30
    /// seconds.
    pub fn step(&mut self, event: StreamEvent) -> (action: StreamAction)
        ensures
            match event {
                StreamEvent::Text(text, local_ts) => {
                    &&& final(self)@ == old(self)@
                    &&& match message_of(text@, local_ts) {
                        Message::Update(update) => action matches StreamAction::Convert(u)
                            && u.texts() == update,
                        Message::Malformed(message) => action matches StreamAction::Report(e)
                            && fails_with(e, message),
                        Message::UnknownStream(_) => action is Read,
                    }
                },
                StreamEvent::Levels(update) => {
                    &&& action is Notify
                    &&& old(self)@.book@.became(update, final(self)@.book@)
                    &&& final(self)@ == (ReceiverState { book: final(self)@.book, ..old(self)@ })
                },
                StreamEvent::Closed => {
                    &&& action == StreamAction::Reconnect { delay_ms: CLEAN_CLOSE_DELAY_MS }
                    &&& final(self)@ == (ReceiverState { reconnect_attempt: 0, ..old(self)@ })
                },
                StreamEvent::Other => action is Read && final(self)@ == old(self)@,
                _ => {
                    &&& final(self)@ == old(self)@.after_failure()
                    &&& action matches StreamAction::Reconnect { delay_ms }
                    &&& delay_ms == 1000 * backoff_secs(final(self)@.reconnect_attempt)
                },
            },
    {
        match event {
            StreamEvent::Text(text, local_ts) => match parse_book_update(text.as_str(), local_ts) {
                Ok(update) => StreamAction::Convert(update),
                Err(StreamError::UnknownStream(_)) => StreamAction::Read,
                Err(e) => StreamAction::Report(e),
            },
            StreamEvent::Levels(update) => {
                self.book.apply(&update);
                StreamAction::Notify
            },
            StreamEvent::Closed => {
                self.reconnect_attempt = 0;
                StreamAction::Reconnect { delay_ms: CLEAN_CLOSE_DELAY_MS }
            },
            StreamEvent::Other => StreamAction::Read,
            _ => {
                self.reconnect_attempt = self.reconnect_attempt.wrapping_add(1);
                StreamAction::Reconnect { delay_ms: backoff_ms(self.reconnect_attempt) }
            },
        }
    }
}

/// What a dry run does when `event` has happened after `failures` failures: it
/// prints every message as it comes in, without parsing it, and leaves the book
/// alone. Also returned are the failures from then on.
pub fn dry_run_step(failures: u64, event: StreamEvent) -> (r: (u64, DryRunAction))
    ensures
        match event {
            StreamEvent::Text(text, _) => r == (failures, DryRunAction::Print(text)),
            StreamEvent::Closed => {
                &&& r.0 == 0
                &&& r.1 == DryRunAction::Reconnect { delay_ms: CLEAN_CLOSE_DELAY_MS }
            },
            StreamEvent::Levels(_) | StreamEvent::Other => r.0 == failures && r.1 is Read,
            _ => {
                &&& r.0 == failures.wrapping_add(1)
                &&& r.1 matches DryRunAction::Reconnect { delay_ms }
                &&& delay_ms == 1000 * backoff_secs(r.0)
            },
        },
{
    match event {
        StreamEvent::Text(text, _) => (failures, DryRunAction::Print(text)),
        StreamEvent::Closed => (0, DryRunAction::Reconnect { delay_ms: CLEAN_CLOSE_DELAY_MS }),
        StreamEvent::Levels(_) | StreamEvent::Other => (failures, DryRunAction::Read),
        _ => {
            let failures: u64 = failures.wrapping_add(1);
            (failures, DryRunAction::Reconnect { delay_ms: backoff_ms(failures) })
        },
    }
}

/// One connection subscribes to all configured streams: the name of each of them
/// stands in the URL.
pub proof fn every_stream_is_subscribed_to(configs: Seq<StreamConfig>, i: int)
    requires
        0 <= i < configs.len(),
    ensures
        has_infix(
            WS_B@ + "?streams="@ + joined(stream_names(configs), "/"@),
            configs[i].name_for(lowercase(configs[i].symbol@)),
        ),
{
    let names = stream_names(configs);
    let (before, after) = lemma_joined_around(names, "/"@, i);
    lemma_infix_between(WS_B@ + "?streams="@ + before, names[i], after);
    assert(WS_B@ + "?streams="@ + before + names[i] + after =~= WS_B@ + "?streams="@ + joined(
        names,
        "/"@,
    ));
}

/// The waits in seconds: 2, 4, 8 and 16 after the first four failures, and 30 from
/// then on. A connection that the server closed is made anew after 100 ms.
pub proof fn waits_between_attempts(failures: u64)
    ensures
        backoff_secs(failures) == if failures == 0 {
            1nat
        } else if failures == 1 {
            2
        } else if failures == 2 {
            4
        } else if failures == 3 {
            8
        } else if failures == 4 {
            16
        } else {
            30
        },
        CLEAN_CLOSE_DELAY_MS == 100,
{
    vstd::arithmetic::power2::lemma2_to64();
    if failures > 5 {
        vstd::arithmetic::power2::lemma_pow2_strictly_increases(5, failures as nat);
    }
}

/// A failure is counted, and touches neither the book nor the subscriptions.
pub proof fn failures_are_counted(receiver: ReceiverState)
    ensures
        receiver.after_failure().book == receiver.book,
        receiver.after_failure().configs == receiver.configs,
        receiver.reconnect_attempt < u64::MAX ==> receiver.after_failure().reconnect_attempt
            == receiver.reconnect_attempt + 1,
{
}

/// Each failure doubles the wait before the next attempt to connect, until the
/// cap is reached.
pub proof fn backoff_doubles(failures: u64)
    requires
        failures < u64::MAX,
    ensures
        backoff_secs((failures + 1) as u64) == if 2 * backoff_secs(failures) <= MAX_BACKOFF_SECS {
            2 * backoff_secs(failures)
        } else {
            MAX_BACKOFF_SECS as nat
        },
{
    vstd::arithmetic::power2::lemma_pow2_unfold((failures + 1) as nat);
}

} // verus!
