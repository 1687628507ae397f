//! Fuses several Binance depth streams into one local order book.
//!
//! Binance offers no tick-by-tick depth data: its streams are conflated, each in
//! its own way. This library reads the messages of all of them
//! ([`parse`]), keeps one book from what they say, level by level and newest
//! first ([`book`]), and decides when to connect and what to do with what comes
//! in ([`receiver`]). What holds of the book whatever it is fed is proved in
//! [`laws`] and, price by price, in [`book_laws`]; what holds of messages, JSON,
//! names, reports and text, in the modules named after them.
//!
//! Prices are held in ticks and quantities as the bit patterns of
//! double-precision numbers. The arithmetic between the two and the numbers in
//! messages and reports is the caller's.

pub mod book;
pub mod book_laws;
pub mod clock;
pub mod config;
pub mod error;
pub mod json;
pub mod json_laws;
pub mod laws;
pub mod message_laws;
pub mod name_laws;
pub mod parse;
pub mod receiver;
pub mod report;
pub mod report_laws;
pub mod source;
pub mod text;
pub mod text_laws;
pub mod urls;
