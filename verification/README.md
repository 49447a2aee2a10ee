# sikapa_execution

Order execution for a Hyperliquid trading engine, verified with Verus.

- `src/` is the library. It admits and throttles orders, encodes and signs them,
  reads the exchange's replies, drives the placing of brackets, and keeps the books:
  orders in flight, recent trades, tracked positions and counts. Each function has a
  contract. Laws that span several calls are public proof functions named `law_*`.
- `app/` is the running side: HTTP, timers, locks, logging, serialisation and
  floating-point arithmetic.
- `tests/` exercises the library from outside.

Doubles enter the library as bit patterns (`Binary64`), which it stores and compares.
Calls into `dashmap`, `hex`, `k256`, `serde_json` and `sha3` stand behind small
functions whose contracts are trusted; they are in `tables.rs`, `json.rs` and
`signing.rs`, and those for the standard library in `clock.rs` and `text.rs`.
