# editor_nostd

A minimal nano-like text editor over an in-memory buffer, verified with Verus.
The editor keeps lines of characters and a cursor, applies keypresses decoded by
`pc_keyboard`, and renders the screen as ANSI escape sequences. It does no I/O:
on Ctrl+S the caller gets the filename back and reads `Editor::content()`.

Layout of `src/`:

- `model.rs` — the editor state as mathematics (`EditorView`), its invariant, and
  `step`, what one keypress does.
- `text.rs` — splitting text into lines and joining lines into text, with the
  proofs that the two undo each other.
- `keys.rs` — the keys the editor reads, and their decoding from `pc_keyboard`.
- `editor.rs` — the executable `Editor`, each operation proved against `model.rs`.
- `render.rs` — the screen as a function of the state, and the pieces that draw it.
- `laws.rs` — properties across keypresses: how each edit changes the plain text,
  Enter/typing undone by Backspace, navigation never edits, only Ctrl+S saves.

`tests/` exercises the library on concrete inputs.
