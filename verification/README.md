# ficant_application

Verified application logic of a fixed-income analytics platform, written in Verus.
Every function in `src/` carries a `requires`/`ensures` contract that Verus proves;
calls into `sha2`, `chrono` and `chrono-tz` go through small trusted wrappers whose
contracts are documented next to them.

Layout:

- `src/` — the library. Exact decimal and rational arithmetic (`decimal`, `rational`),
  portfolio metric aggregation (`aggregation`), canonical byte encodings and their
  parsers (`bytes`, `hex`, `universe`, `cursor`, `fingerprint`, `quotes`), catalog
  evidence and context validation (`evidence`, `resolution`, `overview`, `catalog`,
  `hierarchy`, `listing`), formal input bookkeeping (`formal_inputs`), key-rate and
  futures decisions (`risk`, `risk_analysis`, `futures`), data health and calendar
  rules (`data_health`, `calendar`), page workbench rules (`workbench`, `performance`),
  and the typed decisions of the application services (`use_cases`, `services`,
  `snapshot_payloads`, `delivery`, `bond_analysis`, `phase1`, `replay`), and the overview
  computation as a state machine with its draft and canonical payload (`overview_flow`,
  `overview_draft`, `overview_payload`). Each decision takes, as plain values, what a
  service's ports returned.
- `tests/` — executable tests of the library against concrete values.
- `app/` — asynchronous shells that read from repositories and hand plain values to the
  library: data sources and governed imports, factor targets, foundation changes, the
  default context, the overview computation loop, the registered futures delivery, the
  Phase 1 artifact check and journal, and analytics replays.

Content hashes are taken to be SHA-256 digests: the library computes them with `sha2`, and
where the domain model computes a hash (of a fact, a definition or an input fingerprint) it
arrives as bytes.
