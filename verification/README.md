# cargo_ship

The library behind `cargo ship`, an automated release tool for Rust crates,
written in Verus with its behaviour stated in contracts and proved.

- `src/error.rs` — the tool's error type and the exit code of each outcome.
- `src/utils/version.rs` — semantic versions, parsed and compared by the
  `semver` crate, with the order of versions stated.
- `src/utils/index.rs` — the cache of crates.io index entries and when to
  connect and download, and the table of entity tags sent with requests.
- `src/utils/keyed.rs` — key/value tables without repeated keys, as maps.
- `src/utils/shell.rs` — the `CARGO_TERM_UNICODE` setting.
- `src/ops/changes.rs` — which packages `cargo ship changes` looks at, the
  published version each is compared against, and the lines it prints.
- `app/` — the command line: argument parsing, reading the workspace,
  network access to the index, and printing.
