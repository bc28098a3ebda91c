# crashlab-core

Core of Soroban CrashLab: deterministic fuzz-case generation, crash
classification and signatures, failing-case bundles, replay checks, regression
suites and corpus management for Soroban smart contracts.

## Layout

- `src/` — the library, written in Verus. Every function carries a contract
  (`requires`/`ensures`) over mathematical models (`Seq`, `Set`, views of the
  data types), and the laws that relate several functions stand as proof
  functions named `law_*`. Calls into `hex`, `flate2`, `chrono` and a few std
  string and formatting functions go through small trusted wrappers whose
  contracts are documented where they are declared.
- `tests/` — ordinary Rust tests of the library on concrete values.
- `app/` — the unverified layer: JSON documents (serde), persistence of
  bundles, checkpoints, corpora and suites, the host fingerprint, retries that
  sleep with random jitter, and flakiness statistics (floating point).

## Seed schema

`seed_validator` holds the seed schema that the fixture compatibility checker
validates against: a payload must have between `min_payload_len` and
`max_payload_len` bytes (1 and 64 by default, the engine's seed cap). Each
breach is reported with the payload length and the bound it broke.
