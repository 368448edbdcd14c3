# ai_stock

The core of a desktop stock and crypto tracker, verified with Verus: money and
currencies, symbols and watchlists, quotes, portfolios and their valuation across
currencies, the break-even (averaging-down) calculator, technical indicators (SMA, EMA,
RSI, MACD, Bollinger bands), price alerts, the prompts sent to a language model, and the
text records exchanged with the user interface.

Decimal arithmetic is done by `rust_decimal`; `src/decimal.rs` holds decimals as a
mantissa and a scale and states what each operation returns. Every computation that can
overflow has a `try_` form returning `None` where the plain form would panic.

Layout:

- `src/` — the verified library. The market refresh, candle lookup and alert handling
  are split into decisions (here) and calls to providers, repositories and notifiers
  (in `app/`).
- `tests/` — tests run against the compiled library.
- `app/` — the async services and background loops around the library, the provider
  and repository traits, and serde copies of the interface records.
