# aegis_db

The database layer of a trading research platform, split in two:

- `src/` is the verified library. It holds the rules that decide what is stored,
  counted, classified and reported: migration files, checksums, the migration ledger
  and baselines; candle de-duplication and upsert planning; derivatives freshness,
  funding and open-interest classification and the attribution report; the testnet
  promotion funnel; strategy rankings and the risk state; the paper order gate and
  lifecycle; research candidate names and limits; the guard on test databases.
  Every public function carries a `requires`/`ensures` contract that Verus proves, and
  the `law_*` proof functions state properties that span several functions.
- `app/` is the plain Rust around it: the `sqlx` queries and transactions that feed
  these rules (migrations, derivatives freshness and attribution, the promotion funnel,
  candle batches, the risk state, derivatives and microstructure upserts, the test
  database), file reading and environment variables, and the conversions between
  `rust_decimal` / `chrono` values and the library's `Dec` / `Timestamp`. Most other
  queries and transactions of the platform (users and sessions, orders and paper
  trading, testnet execution and reconciliation, backtests, experiments, configuration,
  signals, research records) read and write types of the platform's core crates and
  are not part of this crate.

Decimal arithmetic and comparison, SHA-256, and the parsing of Postgres connection
strings are delegated to `rust_decimal`, `sha2` and `sqlx` through small trusted
wrappers whose contracts are written next to them.
