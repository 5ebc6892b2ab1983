# mbox_viewer

A viewer for Gmail MBOX exports: an indexer that turns an archive into a
searchable Tantivy index, HTTP servers that search it, and the state of the
browser interface. The logic is a library verified with Verus; the programs
around it are ordinary Rust.

## Layout

- `src/` — the verified library.
  - `text.rs` — character-level text functions (whitespace collapsing,
    trimming, label lists, decimal and hexadecimal notation).
  - `json.rs` — the JSON values that the index stores and requests carry.
  - `dates.rs` — the order in which date notations are tried (parsing is
    `chrono`'s).
  - `mbox.rs` — splitting an archive into messages; batching documents.
  - `mail.rs` — picking bodies and attachments out of a parsed message
    (parsing is `mailparse`'s).
  - `html.rs` — the readable text of an HTML body (parsing is `scraper`'s).
  - `email.rs` — the document stored for one message.
  - `store.rs` — the record that the index writer stores.
  - `search.rs`, `service.rs` — search plans from request parameters and
    the answers built from stored documents.
  - `compare.rs` — comparing two indexes.
  - `shortcuts.rs`, `ui.rs` — keyboard shortcuts and the interface state.
- `tests/` — tests of the library.
- `app/` — the command-line program: indexing, the servers and the index
  comparison, over Tantivy, axum and the file system.
