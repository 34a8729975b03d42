# lighter_client

Client-side logic for the Lighter exchange, written in Verus: the functions
under `src/` carry contracts that Verus proves, except for a handful of
small wrappers around outside crates (`url`, `time`, `alloy-signer-local`,
and `String::from_iter`), whose contracts are trusted and documented where
they are declared.

## Layout

- `src/` — the verified library.
  - `execution.rs`: the order execution state of the market maker —
    pending and live orders per side, planning placements and cancels
    toward target prices, the emergency breaker, retries of failed
    submissions, transaction acknowledgements and account reconciliation.
  - `nonce_manager.rs`: nonce bookkeeping over a range of API keys, used in
    turn.
  - `ws_client.rs`: websocket subscriptions and the channels they send,
    message routing, channel ids, transaction answers, batch checks, the
    websocket URL and the connection's bookkeeping.
  - `tx_executor.rs`: batch chunking, waiting times and per-transaction
    results, and the direction of position-closing orders.
  - `signer_client.rs`: signing contexts, nonce follow-ups, private key maps,
    decimal amounts, book liquidity and personal-message signatures.
  - `participation.rs`, `auth.rs`, `pagination.rs`: per-side pauses and fill
    counts, the cached auth token, and walking paginated listings.
  - `params.rs`, `queries.rs`, `types.rs`, `errors.rs`, `transactions.rs`,
    `decimal.rs`, `config.rs`, `timings.rs`, `volatility.rs`: validated request parameters,
    identifiers, errors and decimal text.
- `tests/` — tests of the library on concrete values.
- `app/` — ordinary Rust around the library: the signer's dynamic library,
  websocket and network I/O, async tasks, JSON, and the floating-point
  market-making strategy.

Time enters the library as milliseconds (monotonic `now_ms`, wall-clock
`wall_ms`); outside crates are reached through small trusted wrappers whose
contracts are documented where they are declared.
