//! The endpoints of the exchange.

use vstd::prelude::*;
use crate::text::{decimal, push_decimal};

verus! {

/// Combined streams, spot.
pub const WS_A: &'static str = "wss://stream.binance.com:9443/stream";

/// Combined streams, futures.
pub const WS_B: &'static str = "wss://fstream.binance.com/public/stream";

/// Combined streams, futures testnet.
pub const WS_C: &'static str = "wss://stream.binancefuture.com/public/stream";

/// Depth snapshots, futures.
pub const REST_FAPI: &'static str = "https://fapi.binance.com/fapi/v1/depth";

/// Where the streams and the snapshots are.
pub proof fn endpoints_of_the_exchange()
    ensures
        WS_A@ == "wss://stream.binance.com:9443/stream"@,
        WS_B@ == "wss://fstream.binance.com/public/stream"@,
        WS_C@ == "wss://stream.binancefuture.com/public/stream"@,
        REST_FAPI@ == "https://fapi.binance.com/fapi/v1/depth"@,
{
}

/// The address of a depth snapshot of `symbol`, with up to `limit` levels on
/// each side.
pub fn snapshot_url(base: &str, symbol: &str, limit: u32) -> (url: String)
    ensures
        url@ == base@ + "?symbol="@ + symbol@ + "&limit="@ + decimal(limit as nat),
{
    let mut url = String::from(base);
    url.append("?symbol=");
    url.append(symbol);
    url.append("&limit=");
    push_decimal(&mut url, limit as u128);
    url
}

} // verus!
