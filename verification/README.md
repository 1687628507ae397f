# depth_fusion

Fuses several Binance depth streams into one local order book.

Binance offers no tick-by-tick depth data. Its streams are conflated, each in its
own way: the book ticker sends the best bid and ask on every change, the diff
depth stream sends batches of changed levels, the partial depth stream sends the
top levels. This project subscribes to all of them over one connection and keeps
one book. Every level remembers which stream wrote it and when; a write that is
not newer than what stands there is dropped. The delay shown for a level is the
wall clock at the time it was applied, less the exchange's timestamp.

## Layout

- `src/` is the library, verified with Verus.
  - `book`: the book, and what an update does to it
  - `parse`: from the messages of the combined stream to updates
  - `json`: reading JSON text with `serde_json`
  - `receiver`: what to connect to, what to do with what comes in, when to try again
  - `source`, `config`, `urls`: the streams, their names and addresses
  - `report`, `text`: reports in words
  - `clock`: the clocks
  - `error`: errors
  - `laws`: what holds of the book whatever it is fed
- `tests/` holds the tests.
- `app/` is the program around the library: the connection, HTTP, printing, and
  the floating-point arithmetic between prices and ticks.

## Numbers

The library holds prices in ticks, `round(price / tick_size)`, and quantities as
the bit patterns of double-precision numbers. It compares ticks, and of a
quantity it asks only whether it is zero.

## What is trusted

The contracts of these are believed, not proved; each says so where it stands:
`serde_json::from_str` and `from_value` (in `json`), the two ends of a `BTreeMap` (in `book`),
`str::contains`, `str::to_lowercase` and the conversions to `String` (in `text`),
and the clocks (in `clock`).
