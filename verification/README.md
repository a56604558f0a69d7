# ecp_clipboard

A clipboard history service whose rules are verified with Verus.

- `src/` is the verified library: the history table (deduplication by content hash,
  recency order, pruning to a history limit and an image budget, search), the image
  assets and their migration, the clipboard watcher's events and hashes, the
  bitmap conversion, the Win+V takeover and its restore, the settings, the
  command-line commands, and the window's text model and texts. Each public function
  states its result in `ensures`; the laws of the history (read-after-write,
  pruning limits, idempotence, eviction order, search matching) are public proof
  functions in `src/db.rs` and the other modules.
- `app/` is the program around it: SQLite storage of the table, the image files,
  the settings file, the system clipboard, and the command-line entry point.
- `tests/` exercises the library on concrete values.
