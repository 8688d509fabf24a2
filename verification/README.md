# tastyworks

Data model of the tastyworks brokerage API, verified with Verus.

- `src/rational.rs` — `Rational64`, exact amounts whose arithmetic is done by
  `num_rational`; contracts speak of the rational number (`Fraction`) each
  value denotes.
- `src/common.rs` — decimal amounts (with a verified reader of decimal
  notation), calendar dates, timestamps.
- `src/text.rs` — character-level matching used to classify CSV rows.
- `src/csv.rs` — the rows of the brokerage's position and transaction exports.
- `src/api.rs`, `src/api/` — the API records: positions, transactions (values,
  commissions and fees with their credit/debit effects, conversion from the
  CSV export), earnings order, option chains, watchlists, balances, accounts.
- `tests/` — scenarios run against the compiled library.
- `app/` — the JSON side: serde copies of the records, text forms of amounts,
  dates and timestamps, and the CSV conversions that first read JSON names.
