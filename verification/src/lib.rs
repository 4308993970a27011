//! A minimal nano-like text editor over an in-memory buffer.
//!
//! The editor keeps the text as lines of characters, moves a cursor over them,
//! applies keypresses (decoded by `pc_keyboard`), and renders the screen as ANSI
//! escape sequences. It performs no I/O: on Ctrl+S the caller receives the
//! filename and reads the buffer with `Editor::content`.
//!
//! - `model`: the editor's state as mathematics, and what each keypress does to it.
//! - `text`: lines and plain text, splitting and joining.
//! - `keys`: the keys the editor reads, and their decoding from `pc_keyboard`.
//! - `editor`: the executable editor, proved against `model`.
//! - `render`: the screen the editor draws.
//! - `laws`: properties that span keypresses.

pub mod editor;
pub mod keys;
pub mod laws;
pub mod model;
pub mod render;
pub mod text;

pub use editor::{Editor, EditorAction};
pub use keys::{EditorKey, NavKey};
