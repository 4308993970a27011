//! The editor as mathematics: its state, and what one keypress does to it.

use crate::keys::{EditorKey, NavKey};
use crate::text::{
    lemma_no_newlines_insert, lemma_no_newlines_remove, lemma_no_newlines_update,
    lemma_plain_concat, lemma_plain_remove, lemma_plain_subrange, no_newlines, plain,
};
use vstd::prelude::*;

verus! {

/// Width of the line-number gutter on the left of each text row.
pub const GUTTER_WIDTH: usize = 6;

/// The state of an editor.
pub struct EditorView {
    /// The lines of the buffer.
    pub lines: Seq<Seq<char>>,
    /// Cursor row, an index into `lines`.
    pub row: nat,
    /// Cursor column, an index into the cursor's line.
    pub col: nat,
    /// The first line shown on screen.
    pub scroll: nat,
    /// The name shown in the status bar and handed out on save.
    pub filename: Seq<char>,
    /// Whether the buffer changed since it was created, last saved or loaded.
    pub modified: bool,
    /// Terminal width in columns.
    pub width: nat,
    /// Terminal height in rows.
    pub height: nat,
    /// The line that the last cut removed.
    pub cut: Option<Seq<char>>,
}

/// What the caller is asked to do after a keypress.
pub enum ActionView {
    Continue,
    Save(Seq<char>),
    Quit,
}

/// Rows left for text once the status bar and the help bar are drawn (at least one).
pub open spec fn text_rows(height: nat) -> nat {
    if height > 2 {
        (height - 2) as nat
    } else {
        1
    }
}

/// Columns left for text once the gutter is drawn (at least one).
pub open spec fn text_cols(width: nat) -> nat {
    if width > GUTTER_WIDTH {
        (width - GUTTER_WIDTH) as nat
    } else {
        1
    }
}

pub open spec fn min_nat(a: nat, b: nat) -> nat {
    if a <= b {
        a
    } else {
        b
    }
}

/// Four spaces, what Tab inserts.
pub open spec fn tab_spaces() -> Seq<char> {
    seq![' ', ' ', ' ', ' ']
}

impl EditorView {
    /// The state is well formed: the buffer has a line, the cursor stands inside it and
    /// inside the window of rows on screen, and no line holds a newline.
    pub open spec fn inv(self) -> bool {
        &&& self.lines.len() >= 1
        &&& self.row < self.lines.len()
        &&& self.col <= self.lines[self.row as int].len()
        &&& self.scroll <= self.row
        &&& self.row < self.scroll + text_rows(self.height)
        &&& no_newlines(self.lines)
    }

    /// The line under the cursor.
    pub open spec fn line(self) -> Seq<char> {
        self.lines[self.row as int]
    }

    /// The same state, scrolled as little as needed to show the cursor row.
    pub open spec fn follow(self) -> EditorView {
        let rows = text_rows(self.height);
        let scroll = if self.row < self.scroll {
            self.row
        } else if self.row >= self.scroll + rows {
            (self.row - rows + 1) as nat
        } else {
            self.scroll
        };
        EditorView { scroll, ..self }
    }

    /// The same state with the column pulled back to the end of the cursor's line.
    pub open spec fn clamp(self) -> EditorView {
        EditorView { col: min_nat(self.col, self.line().len()), ..self }
    }

    /// The cursor moved to (`row`, `col`).
    pub open spec fn at(self, row: nat, col: nat) -> EditorView {
        EditorView { row, col, ..self }
    }

    /// `t` typed at the cursor, which ends up after it.
    pub open spec fn insert_text(self, t: Seq<char>) -> EditorView {
        let line = self.line();
        EditorView {
            lines: self.lines.update(
                self.row as int,
                line.take(self.col as int) + t + line.skip(self.col as int),
            ),
            col: self.col + t.len(),
            modified: true,
            ..self
        }
    }

    /// Ctrl+X: the cursor's line goes to the cut buffer and leaves the buffer (the only
    /// line is emptied instead).
    pub open spec fn cut_line(self) -> EditorView {
        let n = self.lines.len();
        let lines = if n > 1 {
            self.lines.remove(self.row as int)
        } else {
            self.lines.update(0, Seq::<char>::empty())
        };
        let row = if n > 1 && self.row >= lines.len() {
            (lines.len() - 1) as nat
        } else {
            self.row
        };
        EditorView { lines, row, cut: Some(self.line()), modified: true, ..self }.clamp().follow()
    }

    /// Enter: the line is split at the cursor, which goes to the start of the new line.
    pub open spec fn split_line(self) -> EditorView {
        let line = self.line();
        let lines = self.lines.update(self.row as int, line.take(self.col as int)).insert(
            self.row + 1int,
            line.skip(self.col as int),
        );
        EditorView { lines, row: self.row + 1, col: 0, modified: true, ..self }.follow()
    }

    /// Backspace: the character before the cursor goes; at the start of a line the line
    /// is joined onto the one above.
    pub open spec fn backspace(self) -> EditorView {
        let line = self.line();
        if self.col > 0 {
            EditorView {
                lines: self.lines.update(self.row as int, line.remove(self.col - 1)),
                col: (self.col - 1) as nat,
                modified: true,
                ..self
            }
        } else if self.row > 0 {
            let prev = self.lines[self.row - 1];
            let lines = self.lines.remove(self.row as int).update(self.row - 1, prev + line);
            EditorView {
                lines,
                row: (self.row - 1) as nat,
                col: prev.len(),
                modified: true,
                ..self
            }.follow()
        } else {
            self
        }
    }

    /// Delete: the character under the cursor goes; at the end of a line the next line
    /// is joined onto it.
    pub open spec fn delete(self) -> EditorView {
        let line = self.line();
        if self.col < line.len() {
            EditorView {
                lines: self.lines.update(self.row as int, line.remove(self.col as int)),
                modified: true,
                ..self
            }
        } else if self.row + 1 < self.lines.len() {
            let next = self.lines[self.row + 1int];
            let lines = self.lines.remove(self.row + 1int).update(self.row as int, line + next);
            EditorView { lines, modified: true, ..self }
        } else {
            self
        }
    }
}

/// What a Unicode keypress does.
pub open spec fn unicode_step(s: EditorView, c: char) -> (EditorView, ActionView) {
    if c == '\x13' {
        (EditorView { modified: false, ..s }, ActionView::Save(s.filename))
    } else if c == '\x11' {
        (s, ActionView::Quit)
    } else if c == '\x18' {
        (s.cut_line(), ActionView::Continue)
    } else if c == '\n' || c == '\r' {
        (s.split_line(), ActionView::Continue)
    } else if c == '\x08' || c == '\x7f' {
        (s.backspace(), ActionView::Continue)
    } else if c == '\t' {
        (s.insert_text(tab_spaces()), ActionView::Continue)
    } else if c >= ' ' {
        (s.insert_text(seq![c]), ActionView::Continue)
    } else {
        (s, ActionView::Continue)
    }
}

/// What a raw (non-character) keypress does.
pub open spec fn raw_step(s: EditorView, k: NavKey) -> EditorView {
    let n = s.lines.len();
    let rows = text_rows(s.height);
    match k {
        NavKey::ArrowUp => if s.row > 0 {
            s.at((s.row - 1) as nat, s.col).clamp().follow()
        } else {
            s
        },
        NavKey::ArrowDown => if s.row + 1 < n {
            s.at(s.row + 1, s.col).clamp().follow()
        } else {
            s
        },
        NavKey::ArrowLeft => if s.col > 0 {
            s.at(s.row, (s.col - 1) as nat)
        } else if s.row > 0 {
            s.at((s.row - 1) as nat, s.lines[s.row - 1].len()).follow()
        } else {
            s
        },
        NavKey::ArrowRight => if s.col < s.line().len() {
            s.at(s.row, s.col + 1)
        } else if s.row + 1 < n {
            s.at(s.row + 1, 0).follow()
        } else {
            s
        },
        NavKey::Home => s.at(s.row, 0),
        NavKey::End => s.at(s.row, s.line().len()),
        NavKey::PageUp => {
            let row = if s.row >= rows {
                (s.row - rows) as nat
            } else {
                0
            };
            s.at(row, s.col).clamp().follow()
        },
        NavKey::PageDown => {
            let last = if n >= 1 {
                (n - 1) as nat
            } else {
                0
            };
            s.at(min_nat(s.row + rows, last), s.col).clamp().follow()
        },
        NavKey::Delete => s.delete(),
        NavKey::Other => s,
    }
}

/// What any keypress does: the next state and the action handed back.
pub open spec fn step(s: EditorView, k: EditorKey) -> (EditorView, ActionView) {
    match k {
        EditorKey::Unicode(c) => unicode_step(s, c),
        EditorKey::RawKey(n) => (raw_step(s, n), ActionView::Continue),
    }
}

/// Scrolling to follow the cursor puts the cursor row on screen.
pub proof fn lemma_follow(s: EditorView)
    ensures
        s.follow().scroll <= s.row,
        s.row < s.follow().scroll + text_rows(s.height),
        s.follow() == (EditorView { scroll: s.follow().scroll, ..s }),
{
}

/// Every keypress keeps the state well formed: the buffer keeps a line, the cursor
/// stays inside the buffer and on screen, and no line gets a newline.
pub proof fn lemma_step_keeps_inv(s: EditorView, k: EditorKey)
    requires
        s.inv(),
    ensures
        step(s, k).0.inv(),
{
    let line = s.line();
    assert(plain(line));
    match k {
        EditorKey::Unicode(c) => {
            if c == '\x13' || c == '\x11' {
            } else if c == '\x18' {
                lemma_cut_keeps_inv(s);
            } else if c == '\n' || c == '\r' {
                lemma_plain_subrange(line, 0, s.col as int);
                lemma_plain_subrange(line, s.col as int, line.len() as int);
                lemma_no_newlines_update(s.lines, s.row as int, line.take(s.col as int));
                lemma_no_newlines_insert(
                    s.lines.update(s.row as int, line.take(s.col as int)),
                    s.row + 1int,
                    line.skip(s.col as int),
                );
                lemma_follow(
                    EditorView {
                        lines: s.split_line().lines,
                        row: s.row + 1,
                        col: 0,
                        modified: true,
                        ..s
                    },
                );
            } else if c == '\x08' || c == '\x7f' {
                lemma_backspace_keeps_inv(s);
            } else if c == '\t' {
                lemma_insert_keeps_inv(s, tab_spaces());
            } else if c >= ' ' {
                lemma_insert_keeps_inv(s, seq![c]);
            }
        },
        EditorKey::RawKey(n) => {
            lemma_raw_keeps_inv(s, n);
        },
    }
}

pub proof fn lemma_insert_keeps_inv(s: EditorView, t: Seq<char>)
    requires
        s.inv(),
        plain(t),
    ensures
        s.insert_text(t).inv(),
{
    let line = s.line();
    lemma_plain_subrange(line, 0, s.col as int);
    lemma_plain_subrange(line, s.col as int, line.len() as int);
    lemma_plain_concat(line.take(s.col as int), t);
    lemma_plain_concat(line.take(s.col as int) + t, line.skip(s.col as int));
    lemma_no_newlines_update(
        s.lines,
        s.row as int,
        line.take(s.col as int) + t + line.skip(s.col as int),
    );
}

pub proof fn lemma_cut_keeps_inv(s: EditorView)
    requires
        s.inv(),
    ensures
        s.cut_line().inv(),
{
    let n = s.lines.len();
    if n > 1 {
        lemma_no_newlines_remove(s.lines, s.row as int);
    } else {
        lemma_no_newlines_update(s.lines, 0, Seq::<char>::empty());
    }
    let lines = if n > 1 {
        s.lines.remove(s.row as int)
    } else {
        s.lines.update(0, Seq::<char>::empty())
    };
    let row = if n > 1 && s.row >= lines.len() {
        (lines.len() - 1) as nat
    } else {
        s.row
    };
    let t = EditorView { lines, row, cut: Some(s.line()), modified: true, ..s }.clamp();
    lemma_follow(t);
}

pub proof fn lemma_backspace_keeps_inv(s: EditorView)
    requires
        s.inv(),
    ensures
        s.backspace().inv(),
{
    let line = s.line();
    if s.col > 0 {
        lemma_plain_remove(line, s.col - 1);
        lemma_no_newlines_update(s.lines, s.row as int, line.remove(s.col - 1));
    } else if s.row > 0 {
        let prev = s.lines[s.row - 1];
        lemma_plain_concat(prev, line);
        lemma_no_newlines_remove(s.lines, s.row as int);
        lemma_no_newlines_update(s.lines.remove(s.row as int), s.row - 1, prev + line);
        let lines = s.lines.remove(s.row as int).update(s.row - 1, prev + line);
        lemma_follow(
            EditorView { lines, row: (s.row - 1) as nat, col: prev.len(), modified: true, ..s },
        );
    }
}

pub proof fn lemma_delete_keeps_inv(s: EditorView)
    requires
        s.inv(),
    ensures
        s.delete().inv(),
{
    let line = s.line();
    if s.col < line.len() {
        lemma_plain_remove(line, s.col as int);
        lemma_no_newlines_update(s.lines, s.row as int, line.remove(s.col as int));
    } else if s.row + 1 < s.lines.len() {
        let next = s.lines[s.row + 1int];
        lemma_plain_concat(line, next);
        lemma_no_newlines_remove(s.lines, s.row + 1int);
        lemma_no_newlines_update(s.lines.remove(s.row + 1int), s.row as int, line + next);
    }
}

pub proof fn lemma_raw_keeps_inv(s: EditorView, k: NavKey)
    requires
        s.inv(),
    ensures
        raw_step(s, k).inv(),
{
    let n = s.lines.len();
    let rows = text_rows(s.height);
    match k {
        NavKey::ArrowUp => {
            if s.row > 0 {
                lemma_follow(s.at((s.row - 1) as nat, s.col).clamp());
            }
        },
        NavKey::ArrowDown => {
            if s.row + 1 < n {
                lemma_follow(s.at(s.row + 1, s.col).clamp());
            }
        },
        NavKey::ArrowLeft => {
            if s.col == 0 && s.row > 0 {
                lemma_follow(s.at((s.row - 1) as nat, s.lines[s.row - 1].len()));
            }
        },
        NavKey::ArrowRight => {
            if s.col >= s.line().len() && s.row + 1 < n {
                lemma_follow(s.at(s.row + 1, 0));
            }
        },
        NavKey::PageUp => {
            let row = if s.row >= rows {
                (s.row - rows) as nat
            } else {
                0
            };
            lemma_follow(s.at(row, s.col).clamp());
        },
        NavKey::PageDown => {
            lemma_follow(s.at(min_nat(s.row + rows, (n - 1) as nat), s.col).clamp());
        },
        NavKey::Delete => {
            lemma_delete_keeps_inv(s);
        },
        _ => {},
    }
}

} // verus!
