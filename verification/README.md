# typeweld

Verified tooling for Rust API contracts and their generated Effect
TypeScript clients.

- `src/` is the library, verified with Verus: the contract IR and its
  registries (`ir`, `api`), contract collection, Rust source items read
  with `syn` and their source locations (`collector`), the Effect TypeScript generator and the Rust/TypeScript
  symbol graph (`gen`), TypeScript usage indexing (`collector::usage`,
  `scan`), build usage lints (`lint`), serde naming rules (`naming`), the
  command-line decisions (`cli`), web adapter helpers (`web`) and the
  language server gateway's decisions and cross-language queries (`ls`).
- `app/` is the `api` binary around it: file and process I/O, Cargo
  metadata, reading Rust module files, JSON with `serde`, and the language
  server's async runtime (`api lsp`).
- `tests/` exercises the library from outside.

What the library does not carry:

- `ApiType` for `f32` and `f64`: floating-point types have no place in the
  verified library, so it gives no metadata for them.
- `ApiType` for `chrono::DateTime<chrono::Utc>`: the verifier cannot
  declare `chrono::DateTime`, whose parameter is bound by chrono's
  `TimeZone` trait, and the binary cannot implement the library's trait for
  chrono's type. The `Date` mapping's metadata is there as the plain
  functions `api::datetime_utc_type_ref` and `api::datetime_utc_type_def`.
- The axum adapter (routers, status codes, response conversion): it only
  forwards to axum; the route path rewriting it relies on is in `web`.
- The embedded semantic TypeScript scanner: the binary is built without
  it, and `api check-usages` reports that the scanner is unavailable.
