# pcloud_rust

A pCloud transfer client whose decisions are proved correct with Verus.

The library (`src/`) holds everything that computes: how API answers become
results or errors, duplicate handling, retry and back-off (including the
per-file retry step), per-file timeouts and chunking, the progress records
of each file, resumable transfer states with their integrity checks and
repair, the plans for uploading and downloading whole folder trees, folder
synchronisation and the walk of a recursive sync, streamed file checksums, size formatting, command-line option parsing, and the state
machine of the graphical file browser with its sorted, filtered listing.
Every function there carries a contract, and the properties that relate
several functions are stated and proved as lemmas.

The program (`app/`) is the command-line tool around the library: it parses
arguments, talks to the pCloud API over HTTP, reads and writes files, runs
transfers concurrently, and prints results. It also holds what is computed
with floating-point numbers (percentages, the retry multiplier).

The graphical browser exists only as its verified state machine
(`src/browser.rs`, `src/listing.rs`): there is no GUI program, since the
widget toolkit it would be drawn with is not among this crate's
dependencies. The command-line program is the only binary.

Layout:

- `src/types.rs`, `src/error.rs`, `src/config.rs` – regions, options, file
  and account data, errors, timeout and chunking settings.
- `src/client.rs` – the client's settings and what it does with each answer.
- `src/transfer_state.rs`, `src/transfer.rs` – resumable transfer states,
  validation, repair, and the bookkeeping of batches.
- `src/tree.rs`, `src/sync.rs` – folder-tree plans and synchronisation.
- `src/sizes.rs`, `src/options.rs`, `src/text.rs`, `src/paths.rs` – sizes,
  option words, character-level helpers and path questions.
- `src/browser.rs`, `src/listing.rs` – the file browser's state machine and
  how it presents a listing.
- `src/outside.rs`, `src/arith.rs` – calls into `sha2`, `hex` and `uuid`
  behind trusted items, and facts about powers of two.
- `tests/` – tests of the library on concrete values.
