# dropnote

A quick-capture memo tool: a floating input box that saves one-line thoughts
to SQLite, flags the ones that look due today, lets the user search them,
and now and then brings an old one back ("過去から").

Layout:

- `src/` — the library, written in Verus and verified:
  - `text.rs` — Unicode whitespace trimming, prefix/substring tests,
    decimal rendering and `i64` parsing over character sequences;
  - `command.rs` — what a typed line means (`/dev on`, `/search`, `/del`, …);
  - `classifier.rs` — the due-today rule, over `regex`;
  - `clock.rs` — instants in milliseconds, local offsets (through `chrono`),
    `H:MM` labels and local day numbers;
  - `resurface.rs` — the elapsed-time label (`3日前`, `2週間前`, …);
  - `db.rs` — the `rusqlite` calls;
  - `store.rs` — the entry store: SQLite plus the in-memory cache;
  - `view.rs`, `hotkey.rs`, `tray.rs` — labels and small decisions for the UI
    (how the window reacts to a submitted line, what a tray event asks for).
- `tests/` — tests of the library.
- `app/` — the desktop program around it: window (Slint), global hotkey,
  tray icon, database path.
