//! What can go wrong while a stream is read or a snapshot is fetched.

use vstd::prelude::*;
use vstd::string::to_string_from_display_ensures;

verus! {

/// What went wrong on a WebSocket connection.
#[verifier::external_type_specification]
#[verifier::external_body]
pub struct ExWsError(tokio_tungstenite::tungstenite::Error);

/// What went wrong with an HTTP request.
#[verifier::external_type_specification]
#[verifier::external_body]
pub struct ExRequestError(reqwest::Error);

/// Errors that can occur during stream processing.
#[derive(Debug)]
pub enum StreamError {
    /// WebSocket connection failure.
    WsConnect(String),
    /// WebSocket read failure.
    WsRead(String),
    /// JSON parse failure.
    JsonParse(String),
    /// Unknown or unsupported stream name.
    UnknownStream(String),
}

impl StreamError {
    /// The error in words.
    pub open spec fn message(self) -> Seq<char> {
        match self {
            StreamError::WsConnect(msg) => "WebSocket connect error: "@ + msg@,
            StreamError::WsRead(msg) => "WebSocket read error: "@ + msg@,
            StreamError::JsonParse(msg) => "JSON parse error: "@ + msg@,
            StreamError::UnknownStream(name) => "unknown stream: "@ + name@,
        }
    }

    /// The error in words, as text.
    pub fn to_string(&self) -> (s: String)
        ensures
            s@ == self.message(),
    {
        match self {
            StreamError::WsConnect(msg) => with_prefix("WebSocket connect error: ", msg),
            StreamError::WsRead(msg) => with_prefix("WebSocket read error: ", msg),
            StreamError::JsonParse(msg) => with_prefix("JSON parse error: ", msg),
            StreamError::UnknownStream(name) => with_prefix("unknown stream: ", name),
        }
    }
}

/// What the error says is stated at `from` itself, as a relation.
impl vstd::std_specs::convert::FromSpecImpl<tokio_tungstenite::tungstenite::Error> for StreamError {
    open spec fn obeys_from_spec() -> bool {
        false
    }

    open spec fn from_spec(e: tokio_tungstenite::tungstenite::Error) -> StreamError {
        arbitrary()
    }
}

impl From<tokio_tungstenite::tungstenite::Error> for StreamError {
    /// A WebSocket read failure, with what the connection says of it.
    fn from(e: tokio_tungstenite::tungstenite::Error) -> (error: Self)
        ensures
            error is WsRead,
            to_string_from_display_ensures(&e, error->WsRead_0),
    {
        StreamError::WsRead(e.to_string())
    }
}

/// What the error says is stated at `from` itself, as a relation.
impl vstd::std_specs::convert::FromSpecImpl<serde_json::Error> for StreamError {
    open spec fn obeys_from_spec() -> bool {
        false
    }

    open spec fn from_spec(e: serde_json::Error) -> StreamError {
        arbitrary()
    }
}

impl From<serde_json::Error> for StreamError {
    /// A JSON parse failure, with what the parser says of it.
    fn from(e: serde_json::Error) -> (error: Self)
        ensures
            error is JsonParse,
            to_string_from_display_ensures(&e, error->JsonParse_0),
    {
        StreamError::JsonParse(e.to_string())
    }
}

/// Errors that can occur during HTTP-based data fetches.
#[derive(Debug)]
pub enum HttpError {
    /// HTTP request failure.
    Request(String),
    /// HTTP response parsing failure.
    Parse(String),
}

impl HttpError {
    /// The error in words.
    pub open spec fn message(self) -> Seq<char> {
        match self {
            HttpError::Request(msg) => "HTTP error: "@ + msg@,
            HttpError::Parse(msg) => "HTTP parse error: "@ + msg@,
        }
    }

    /// The error in words, as text.
    pub fn to_string(&self) -> (s: String)
        ensures
            s@ == self.message(),
    {
        match self {
            HttpError::Request(msg) => with_prefix("HTTP error: ", msg),
            HttpError::Parse(msg) => with_prefix("HTTP parse error: ", msg),
        }
    }
}

/// What the error says is stated at `from` itself, as a relation.
impl vstd::std_specs::convert::FromSpecImpl<reqwest::Error> for HttpError {
    open spec fn obeys_from_spec() -> bool {
        false
    }

    open spec fn from_spec(e: reqwest::Error) -> HttpError {
        arbitrary()
    }
}

impl From<reqwest::Error> for HttpError {
    /// A request failure, with what the client says of it.
    fn from(e: reqwest::Error) -> (error: Self)
        ensures
            error is Request,
            to_string_from_display_ensures(&e, error->Request_0),
    {
        HttpError::Request(e.to_string())
    }
}

/// What the error says is stated at `from` itself, as a relation.
impl vstd::std_specs::convert::FromSpecImpl<serde_json::Error> for HttpError {
    open spec fn obeys_from_spec() -> bool {
        false
    }

    open spec fn from_spec(e: serde_json::Error) -> HttpError {
        arbitrary()
    }
}

impl From<serde_json::Error> for HttpError {
    /// A response parsing failure, with what the parser says of it.
    fn from(e: serde_json::Error) -> (error: Self)
        ensures
            error is Parse,
            to_string_from_display_ensures(&e, error->Parse_0),
    {
        HttpError::Parse(e.to_string())
    }
}

fn with_prefix(prefix: &str, rest: &String) -> (s: String)
    ensures
        s@ == prefix@ + rest@,
{
    let mut s = prefix.to_owned();
    s.append(rest.as_str());
    s
}

} // verus!
