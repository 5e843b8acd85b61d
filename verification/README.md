# ox

A small terminal text editor whose logic is verified with Verus.

- `src/` is the verified library. `model.rs` states the editor as a value
  (`EditorState`) and what every key and event does to it (`step`);
  `editor.rs` is the executable editor, proved to follow `step` and to keep
  its invariant; `editor/screen.rs` and `frame.rs` draw the screen;
  `row.rs`, `document.rs` and `terminal.rs` hold rows, documents and padding;
  `laws.rs` proves properties that span several events.
- Display widths come from `unicode-width`, escape sequences from `termion`,
  each behind a small trusted wrapper whose contract says what the crate does.
- `app/main.rs` is the terminal front end: it reads keys and the terminal size,
  prints each frame, and reads and writes files when the editor asks.
- `tests/` runs the library on concrete scenarios.
