# anseo_api

The request-validation, policy and rendering logic of the Anseo HTTP API,
written in Verus and proved against its contracts.

## Layout

- `src/` — the verified library. Each module holds the rules of one group of
  endpoints (ingest, prompt runs, comparisons, badges, plugins, billing, …) as
  functions from plain values to plain values, with `requires`/`ensures`
  stated over spec functions and views. Shared pieces: `text` (Unicode
  trimming, decimal formatting and parsing), `order` (string order),
  `json` (a JSON value as the handlers read it), `wire` (UUIDs, timestamps),
  `errors` (the error answer).
- Stateful parts carry their own laws as proof functions: the per-org token
  bucket (`rate_limit`), the per-project sliding window of the ingest endpoint
  (`ingest`), the erase confirm token (`operator_entities`), the marketplace
  merge (`plugins`).
- Calls into outside crates (uuid, ulid, chrono, flate2, hmac/sha2, hex,
  subtle, serde_json) and the few std functions vstd does not specify go
  through small `#[verifier::external_body]` wrappers whose contracts state
  what those functions document; where a result takes pages to state, it is
  named by an uninterpreted spec function.
- `tests/` — ordinary Rust tests of the library on concrete values.
- `app/` — the HTTP server around the library (axum, tokio, environment,
  serde copies of the wire types) and the floating-point rules that Verus
  does not take.
- `extras/luminance_table.py` — derives the integer sRGB table that the
  accent-colour contrast check in `src/color.rs` uses, and checks over all
  2^24 colours that the integer test agrees with the floating-point WCAG
  formula. That agreement is shown by this script, not by Verus.
