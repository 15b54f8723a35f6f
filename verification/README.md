# crossfury

Market-data connector building blocks for crypto exchanges, written in Verus: the
decisions of the connectors are executable Rust with contracts that Verus proves.

Layout:

- `src/` — the verified library.
  - `types/` — exchanges, markets, orders, events, errors and configuration records.
  - `decimal.rs` — exact decimals (`Dec`), their order and text, and `rust_decimal`
    arithmetic behind trusted wrappers.
  - `connectors/common/` — order-book validation, batch subscription, smart error
    recovery, adaptive timeouts, emergency pings, connection quality, symbol
    conversion and user-data field decoding.
  - `connectors/traits/` — subscription and WebSocket pools, batched writing, the
    modern connector records and the Binance connector state.
  - `connectors/managers/` — the connector registry and the configuration store.
  - `connectors/lbank.rs`, `network.rs` — the LBank connector state and the futures
    feed and watchdog decisions.
  - `sinks/` — sink configuration, the sink factory and the file sink's bookkeeping.
  - `json_parser.rs` — JSON bytes parsed by `simd_json` behind a trusted wrapper.
  - `clock.rs`, `text.rs`, `str_map.rs` — the clock, text helpers and an
    insertion-ordered string map.
- `app/` — the asynchronous side: sockets, channels, files, metrics collectors, the
  CPU feature check and the floating-point market data, all calling into the library
  for each decision.
- `tests/` — tests of the library.

Durations are milliseconds, latencies microseconds, and rates fixed-point
(parts per million or per thousand), so that every figure is an integer.
