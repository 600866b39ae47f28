# mempill-core

A temporally correct memory engine for agents, written and verified in Verus: append-only,
bi-temporal and provenance-aware.

Claims are written once and never changed. Belief is not stored: a canonical fold derives it from
the claims, their validity assertions and their dispositions whenever it is read, on two time axes.
Transaction time says when something was learned; valid time says when it holds. Contradictions are
shown to the reader and never resolved in silence.

## Layout

- `src/domain`, `src/time.rs`, `src/score.rs`, `src/json.rs`, `src/ident.rs`: the values. Instants,
  UUIDs, scores and JSON values are held as plain data with exact comparisons.
- `src/engine`: the components. `gateway` stamps what comes in, `firewall` guards against
  amplification, `reconciler` relates a candidate to what is believed, `gate` decides about it,
  `supersession` closes what was overturned, `truth_engine` and `history` fold and answer,
  `projection` presents the answer, `audit_ledger` reads the ledger.
- `src/engine/ordering.rs`, `fold_laws.rs`, `memory_laws.rs`: the order of records and the laws that
  span components, such as that arrival order does not matter, that later assertions leave the past
  alone, that a first write is recalled, and that a contradiction is recalled as contested.
- `src/ports`, `src/noop.rs`: the seams to stores, oracles, extractors and embeddings.
- `src/coordination.rs`: what the asynchronous handle decides: lock order, lookups in the queue of
  pending adjudications, and how a sweep of that queue goes on.
- `app`: the asynchronous handle over the library, with its locks, its clock and its conversions.
- `tests`: the library's tests.

## What is trusted

Six small functions call out of verified code; their contracts are believed: `rfc3339` and `elapsed`
(`chrono`), `fresh_id` and `display_uuid` (`uuid`), `quoted` (the `Debug` form of a string) and
`share` (`Arc::clone`). What a store does is stated by the contracts of `PersistencePort`, which its
implementations have to keep.
