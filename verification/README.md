# dtrpg-ui core

The verified core of a DriveThruRPG library browser: catalog filtering,
searching, sorting and publisher grouping; collection sorting; size, date and
count labels; cover styles and the cover cache; file metadata (PDF page
counts, Zip listings, image dimensions); download-presence reconciliation;
opening files; and the library pane's state machine.

- `src/` is the library, written in Verus. Its public functions carry a
  `requires`/`ensures` contract over mathematical models (`Seq`, `Set`,
  `Map`, `int`), and the cross-function laws (sort uniqueness and
  idempotence, presence idempotence, publisher counts summing to the
  catalog, cache read-after-write, filter equality) are proof functions.
  Calls into `chrono`, `open`, `zip`, `lopdf`, `image` and a few std
  functions go through small trusted wrappers whose doc comments say what
  is assumed of them.
- `app/` is ordinary Rust around the core: reading files from disk,
  symlinks, revealing files, and error types that implement
  `std::error::Error`.
- `tests/` exercise the library on concrete values.
