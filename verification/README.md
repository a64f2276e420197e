# ersha

The verified core of a farm-monitoring platform: edge devices send sensor
readings and status reports over a small binary protocol to a dispatcher,
which stores them locally and uploads them in batches to the prime
service, where registries of devices, dispatchers, readings and statuses
are kept and served over HTTP.

Every function in `src/` is checked by Verus against its contract, except a
few small wrappers (marked `#[verifier::external_body]`) around the `ulid`
and `jiff` crates and standard-library functions, whose contracts are
trusted and documented beside each of them.

## Layout

- `src/protocol.rs` — the framed packet format (preamble, header, payload) with
  its encode/decode round-trip laws.
- `src/model.rs`, `src/filter.rs` — the domain types, filters and query
  options shared by every backend.
- `src/registry.rs`, `src/ordering.rs` — the in-memory registries: keyed
  storage, filtering, stable sorting and offset or cursor pagination.
- `src/storage.rs` — the dispatcher's store-and-forward buffer and the
  SQLite schema migrations.
- `src/query.rs`, `src/columnar.rs` — the SQL statements of the SQLite and
  ClickHouse registries, built from filters.
- `src/rows.rs`, `src/codes.rs`, `src/idtext.rs` — reading and writing
  database rows: codes, identifiers, times and metric values.
- `src/dispatch.rs`, `src/prime.rs` — the decisions of the dispatcher and
  prime services (connections, upload back-off, batch acceptance).
- `src/api.rs`, `src/dashboard.rs` — what the HTTP handlers compute.
- `src/edge.rs` — the device side: calibration, message framing, sensor
  registration.
- `src/text.rs`, `src/config.rs` — text helpers and configuration types.
- `tests/` — executable tests of the library.
- `app/` — the programs around the library: the prime service's HTTP
  API over the in-memory registries, and the dispatcher's edge side
  (device handshake, frame decoding, storing readings in memory), with
  the clock, identifier generation and floating-point conversions. The
  SQLite and ClickHouse statements, row codecs and migrations are in the
  library; no program here runs them against a database.
