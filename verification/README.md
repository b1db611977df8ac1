# lehman_cousins_core

The core of a crypto statistical-arbitrage trading engine, written in Verus.
The library's functions carry contracts that Verus proves; its calls into
`rust_decimal`, `chrono`, `dashmap`, `tokio`, `hmac`, `hex`, `uuid`,
`simd-json`, `csv` and std go through a small set of trusted declarations whose
contracts Verus takes as given.

## Layout

- `src/` — the verified library.
  - `domain/` — decimals (`decimal.rs`, backed by `rust_decimal`), the
    domain models, the flat sorted order book (`orderbook.rs`: bids
    descending, asks ascending, stale updates ignored, zero quantities
    delete), the feed state machine and instrument rounding.
  - `exchange_clients/` — the snapshot/delta synchroniser of the order
    book, the decisions of the WebSocket loop (back-off, heartbeat) and the
    Bybit request signing (HMAC-SHA256, hex).
  - `order_manager/` — the pre-flight checks, the nonce generator and the
    in-flight order tracker with its ghost-order reaper.
  - `risk_manager/` — the stateless risk rules, the position tracker and
    the risk manager.
  - `backtest.rs`, `strategies/` — the strategy interface, a paper trader
    and a spread strategy for backtests; `replay.rs` — the backtest run
    over CSV quotes, from the text to the final report.
  - `utils/` — basis-point math, retry back-off, time conversions.
  - `config.rs` — configuration structures and the parsing of settings.
  - `telemetry.rs` — the body of webhook alerts.
- `tests/` — tests of the library on concrete values.
- `app/` — the executable: Tokio runtime, sockets, REST, the token-bucket
  rate limiter (floating point), telemetry, the engine wiring and the
  backtest runner. It hands plain values to the library and performs the
  actions the library decides.

Laws of the library (book ordering, update idempotence, reset, nonce
monotonicity, fill deltas, net positions, back-off growth) are public proof
functions named `law_*`, next to the code they speak of; others (rounding
to the largest multiple, the buffer bound of the synchroniser) stand in the
contracts of the functions themselves.
