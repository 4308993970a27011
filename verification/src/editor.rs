//! The editor: an in-memory buffer of lines with a cursor, driven by keypresses.

use crate::keys::{decode_key, editor_key_of, EditorKey, NavKey};
use crate::model::{
    lemma_follow, lemma_insert_keeps_inv, lemma_step_keeps_inv, min_nat, raw_step, step,
    tab_spaces, text_cols, text_rows, unicode_step, ActionView, EditorView, GUTTER_WIDTH,
};
use crate::render::{
    push_decimal, push_goto_row, push_padded_decimal, push_spaces, render_view, row_text,
    status_gap, status_left, status_right, text_area, utf8_len_of,
};
use crate::text::{
    join_content, join_lines, lemma_split_no_newlines, lemma_split_nonempty, lines_view,
    push_char, split_content, split_lines,
};
use pc_keyboard::DecodedKey;
use vstd::prelude::*;

verus! {

/// Action returned by the editor after processing a keypress.
#[derive(Debug, Clone, PartialEq, Eq)]
pub enum EditorAction {
    /// Nothing special happened; the caller should re-render.
    Continue,
    /// The user pressed Ctrl+S. Contains the filename.
    Save(String),
    /// The user pressed Ctrl+Q.
    Quit,
}

impl View for EditorAction {
    type V = ActionView;

    open spec fn view(&self) -> ActionView {
        match self {
            EditorAction::Continue => ActionView::Continue,
            EditorAction::Save(name) => ActionView::Save(name@),
            EditorAction::Quit => ActionView::Quit,
        }
    }
}

/// A minimal text editor that operates on an in-memory buffer.
pub struct Editor {
    /// Lines of text, each a vector of characters.
    lines: Vec<Vec<char>>,
    /// Current cursor row (0-indexed into `lines`).
    cursor_row: usize,
    /// Current cursor column (0-indexed into the current line).
    cursor_col: usize,
    /// First visible line index (vertical scroll offset).
    scroll_offset: usize,
    /// Name shown in the status bar.
    filename: String,
    /// Whether the buffer has been modified since the last save or load.
    modified: bool,
    /// Terminal width in columns.
    width: usize,
    /// Terminal height in rows.
    height: usize,
    /// Clipboard for cut-line (Ctrl+X).
    cut_buffer: Option<Vec<char>>,
}

impl View for Editor {
    type V = EditorView;

    closed spec fn view(&self) -> EditorView {
        EditorView {
            lines: lines_view(self.lines@),
            row: self.cursor_row as nat,
            col: self.cursor_col as nat,
            scroll: self.scroll_offset as nat,
            filename: self.filename@,
            modified: self.modified,
            width: self.width as nat,
            height: self.height as nat,
            cut: match self.cut_buffer {
                Some(l) => Some(l@),
                None => None,
            },
        }
    }
}

impl Editor {
    /// The editor's state is well formed (see `EditorView::inv`).
    pub open spec fn wf(&self) -> bool {
        self@.inv()
    }

    /// Create a new empty editor sized for the given terminal dimensions.
    pub fn new(width: usize, height: usize) -> (ed: Editor)
        ensures
            ed@ == (EditorView {
                lines: seq![Seq::<char>::empty()],
                row: 0,
                col: 0,
                scroll: 0,
                filename: "[untitled]"@,
                modified: false,
                width: width as nat,
                height: height as nat,
                cut: None,
            }),
            ed.wf(),
    {
        let mut lines: Vec<Vec<char>> = Vec::new();
        lines.push(Vec::new());
        let ed = Editor {
            lines,
            cursor_row: 0,
            cursor_col: 0,
            scroll_offset: 0,
            filename: "[untitled]".to_owned(),
            modified: false,
            width,
            height,
            cut_buffer: None,
        };
        assert(ed@.lines =~= seq![Seq::<char>::empty()]);
        ed
    }

    /// Load file content into the editor, replacing whatever was there: the lines
    /// are the content cut at each `'\n'`, the cursor and the view go to the top,
    /// and the buffer counts as unmodified.
    pub fn load(&mut self, filename: &str, content: &str)
        ensures
            final(self)@ == (EditorView {
                lines: split_lines(content@),
                row: 0,
                col: 0,
                scroll: 0,
                filename: filename@,
                modified: false,
                ..old(self)@
            }),
            final(self).wf(),
    {
        self.filename = filename.to_owned();
        self.lines = split_content(content);
        self.cursor_row = 0;
        self.cursor_col = 0;
        self.scroll_offset = 0;
        self.modified = false;
        proof {
            lemma_split_nonempty(content@);
            lemma_split_no_newlines(content@);
        }
    }

    /// Resize the editor viewport, scrolling as little as needed to keep the cursor
    /// on screen.
    pub fn resize(&mut self, width: usize, height: usize)
        requires
            old(self).wf(),
        ensures
            final(self)@ == (EditorView {
                width: width as nat,
                height: height as nat,
                ..old(self)@
            }).follow(),
            final(self).wf(),
            final(self)@.lines == old(self)@.lines,
            final(self)@.row == old(self)@.row,
            final(self)@.col == old(self)@.col,
            final(self)@.width == width,
            final(self)@.height == height,
            // The view moves only as far as needed to keep the cursor on screen.
            ({
                let (r, sc, rows) = (old(self)@.row, old(self)@.scroll, text_rows(height as nat));
                &&& sc <= r < sc + rows ==> final(self)@.scroll == sc
                &&& r < sc ==> final(self)@.scroll == r
                &&& r >= sc + rows ==> final(self)@.scroll == r - rows + 1
            }),
    {
        self.width = width;
        self.height = height;
        self.ensure_cursor_visible();
        proof {
            lemma_follow(EditorView { width: width as nat, height: height as nat, ..old(self)@ });
        }
    }

    /// Process a single keypress that `pc_keyboard` decoded, and return the resulting
    /// action.
    pub fn handle_key(&mut self, key: DecodedKey) -> (action: EditorAction)
        requires
            old(self).wf(),
        ensures
            (final(self)@, action@) == step(old(self)@, editor_key_of(key)),
            final(self).wf(),
    {
        let k = decode_key(key);
        self.handle(k)
    }

    /// Process a single keypress and return the resulting action.
    pub fn handle(&mut self, key: EditorKey) -> (action: EditorAction)
        requires
            old(self).wf(),
        ensures
            (final(self)@, action@) == step(old(self)@, key),
            final(self).wf(),
    {
        proof {
            lemma_step_keeps_inv(self@, key);
        }
        match key {
            EditorKey::Unicode(c) => self.handle_unicode(c),
            EditorKey::RawKey(k) => self.handle_raw_key(k),
        }
    }

    /// Render the entire editor screen as a string of ANSI escape sequences.
    ///
    /// The output clears the screen, draws line-numbered content, a status bar,
    /// and a help bar, then positions the cursor.
    pub fn render(&self) -> (out: String)
        requires
            self.wf(),
        ensures
            out@ == render_view(self@),
    {
        let ghost s = self@;
        let mut out = String::new();
        // Hide cursor + move to top-left.
        out.append("\x1b[?25l\x1b[H");
        let text_rows = self.text_rows();
        let text_cols = self.text_cols();
        let mut row: usize = 0;
        while row < text_rows
            invariant
                s == self@,
                self.wf(),
                text_rows == crate::model::text_rows(s.height),
                text_cols == crate::model::text_cols(s.width),
                row <= text_rows,
                out@ == "\x1b[?25l\x1b[H"@ + text_area(s, row as nat),
            decreases text_rows - row,
        {
            self.push_text_row(&mut out, row, text_cols);
            row = row + 1;
        }
        // ── Status bar ───────────────────────────────────────────────────
        push_goto_row(&mut out, text_rows as u128 + 1);
        out.append("\x1b[7m");
        let mut left = String::new();
        left.append(" ");
        left.append(self.filename.as_str());
        if self.modified {
            left.append(" [+]");
        }
        let mut right = String::new();
        right.append("Ln ");
        push_decimal(&mut right, self.cursor_row as u128 + 1);
        right.append(", Col ");
        push_decimal(&mut right, self.cursor_col as u128 + 1);
        right.append(" ");
        out.append(left.as_str());
        // Fill the gap with spaces (the parts are measured in bytes).
        let left_len = utf8_len_of(left.as_str());
        let right_len = utf8_len_of(right.as_str());
        let used = if left_len > u128::MAX - right_len {
            u128::MAX
        } else {
            left_len + right_len
        };
        let fill: usize = if (self.width as u128) > used {
            (self.width as u128 - used) as usize
        } else {
            0
        };
        proof {
            assert(left@ =~= status_left(s));
            assert(right@ =~= status_right(s));
        }
        assert(fill == status_gap(s));
        push_spaces(&mut out, fill);
        out.append(right.as_str());
        out.append("\x1b[0m");
        // ── Help bar ─────────────────────────────────────────────────────
        push_goto_row(&mut out, text_rows as u128 + 2);
        out.append("\x1b[90m ^S Save  ^Q Quit  ^X Cut line\x1b[0m\x1b[K");
        // ── Position the cursor ──────────────────────────────────────────
        out.append("\x1b[");
        push_decimal(&mut out, (self.cursor_row - self.scroll_offset) as u128 + 1);
        out.append(";");
        push_decimal(&mut out, self.cursor_col as u128 + GUTTER_WIDTH as u128 + 1);
        out.append("H");
        // Show cursor.
        out.append("\x1b[?25h");
        assert(out@ =~= render_view(s));
        out
    }

    /// Appends text row `row` of the screen (see `row_text`).
    fn push_text_row(&self, out: &mut String, row: usize, text_cols: usize)
        requires
            self.wf(),
            text_cols == crate::model::text_cols(self@.width),
        ensures
            final(out)@ == old(out)@ + row_text(self@, row as nat),
    {
        let ghost s = self@;
        // Move to start of this row.
        push_goto_row(out, row as u128 + 1);
        if row < self.lines.len() - self.scroll_offset {
            let line_idx = self.scroll_offset + row;
            // Line number in gutter (1-indexed).
            out.append("\x1b[90m");
            push_padded_decimal(out, line_idx + 1, 4);
            out.append(" \x1b[34m\u{2502}\x1b[0m");
            // Line content, truncated to fit.
            let line = &self.lines[line_idx];
            let end = if line.len() < text_cols {
                line.len()
            } else {
                text_cols
            };
            let ghost mid = out@;
            let mut j: usize = 0;
            while j < end
                invariant
                    end <= line@.len(),
                    j <= end,
                    out@ == mid + line@.take(j as int),
                decreases end - j,
            {
                push_char(out, line[j]);
                assert(line@.take(j + 1) =~= line@.take(j as int).push(line@[j as int]));
                j = j + 1;
            }
            assert(s.lines[line_idx as int] == line@);
        } else {
            // Tilde for lines past end of file.
            out.append("\x1b[90m   ~ \x1b[34m\u{2502}\x1b[0m");
        }
        // Clear to end of line.
        out.append("\x1b[K");
        assert(out@ =~= old(out)@ + row_text(s, row as nat));
    }

    /// Return the full buffer content: the lines joined with `'\n'`.
    pub fn content(&self) -> (s: String)
        ensures
            s@ == join_lines(self@.lines),
    {
        join_content(&self.lines)
    }

    /// The number of lines in the buffer.
    pub fn line_count(&self) -> (n: usize)
        ensures
            n == self@.lines.len(),
    {
        self.lines.len()
    }

    /// Line `i` of the buffer, or `None` past the last line.
    pub fn line(&self, i: usize) -> (l: Option<String>)
        ensures
            i < self@.lines.len() ==> (l matches Some(text) && text@ == self@.lines[i as int]),
            i >= self@.lines.len() ==> l is None,
    {
        if i < self.lines.len() {
            let line = &self.lines[i];
            let mut text = String::new();
            let n = line.len();
            let mut j: usize = 0;
            while j < n
                invariant
                    n == line@.len(),
                    j <= n,
                    text@ == line@.take(j as int),
                decreases n - j,
            {
                push_char(&mut text, line[j]);
                assert(line@.take(j + 1) =~= line@.take(j as int).push(line@[j as int]));
                j = j + 1;
            }
            assert(line@.take(n as int) =~= line@);
            Some(text)
        } else {
            None
        }
    }

    /// The cursor row (0-based).
    pub fn cursor_row(&self) -> (r: usize)
        ensures
            r == self@.row,
    {
        self.cursor_row
    }

    /// The cursor column (0-based).
    pub fn cursor_col(&self) -> (c: usize)
        ensures
            c == self@.col,
    {
        self.cursor_col
    }

    /// The first line shown on screen.
    pub fn scroll_offset(&self) -> (r: usize)
        ensures
            r == self@.scroll,
    {
        self.scroll_offset
    }

    /// Whether the buffer changed since it was created, last saved or loaded.
    pub fn is_modified(&self) -> (m: bool)
        ensures
            m == self@.modified,
    {
        self.modified
    }

    /// Moves the cursor to (`row`, `col`), pulled back to the last line and to the end
    /// of its line, and scrolls as little as needed to show it.
    pub fn move_cursor(&mut self, row: usize, col: usize)
        requires
            old(self).wf(),
        ensures
            final(self)@ == old(self)@.at(
                min_nat(row as nat, (old(self)@.lines.len() - 1) as nat),
                col as nat,
            ).clamp().follow(),
            final(self).wf(),
    {
        let last = self.lines.len() - 1;
        self.cursor_row = if row < last {
            row
        } else {
            last
        };
        self.cursor_col = col;
        self.clamp_col();
        self.ensure_cursor_visible();
        proof {
            lemma_follow(
                old(self)@.at(
                    min_nat(row as nat, (old(self)@.lines.len() - 1) as nat),
                    col as nat,
                ).clamp(),
            );
        }
    }

    // ── Helpers ──────────────────────────────────────────────────────────
    /// Number of rows available for text (excludes status bar + help bar).
    fn text_rows(&self) -> (r: usize)
        ensures
            r == text_rows(self.height as nat),
    {
        if self.height > 2 {
            self.height - 2
        } else {
            1
        }
    }

    /// Number of columns available for text (excludes the gutter).
    fn text_cols(&self) -> (c: usize)
        ensures
            c == text_cols(self.width as nat),
    {
        if self.width > GUTTER_WIDTH {
            self.width - GUTTER_WIDTH
        } else {
            1
        }
    }

    /// Ensure the cursor is within the visible scroll window.
    fn ensure_cursor_visible(&mut self)
        ensures
            final(self)@ == old(self)@.follow(),
    {
        let rows = self.text_rows();
        if self.cursor_row < self.scroll_offset {
            self.scroll_offset = self.cursor_row;
        } else if self.cursor_row - self.scroll_offset >= rows {
            self.scroll_offset = self.cursor_row - rows + 1;
        }
    }

    /// Clamp the cursor column so it does not exceed the current line length.
    fn clamp_col(&mut self)
        requires
            old(self).cursor_row < old(self).lines@.len(),
        ensures
            final(self)@ == old(self)@.clamp(),
    {
        let len = self.lines[self.cursor_row].len();
        if self.cursor_col > len {
            self.cursor_col = len;
        }
    }

    /// Process a Unicode keypress: a character to type, or a control character
    /// (Ctrl+S, Ctrl+Q, Ctrl+X, Enter, Backspace, Tab; other control characters are
    /// ignored).
    pub fn handle_unicode(&mut self, c: char) -> (action: EditorAction)
        requires
            old(self).wf(),
        ensures
            (final(self)@, action@) == unicode_step(old(self)@, c),
            final(self).wf(),
    {
        proof {
            lemma_step_keeps_inv(self@, EditorKey::Unicode(c));
        }
        match c {
            // Ctrl+S — save.
            '\x13' => {
                // The caller persists the content now, so it counts as unmodified.
                self.modified = false;
                EditorAction::Save(self.filename.clone())
            },
            // Ctrl+Q — quit.
            '\x11' => EditorAction::Quit,
            // Ctrl+X — cut current line.
            '\x18' => {
                self.cut_line();
                EditorAction::Continue
            },
            // Enter — split line at cursor.
            '\n' | '\r' => {
                self.split_line();
                EditorAction::Continue
            },
            // Backspace (some terminals send 0x08, some send 0x7F).
            '\x08' | '\x7f' => {
                self.backspace();
                EditorAction::Continue
            },
            // Tab — insert 4 spaces.
            '\t' => {
                self.insert_tab();
                EditorAction::Continue
            },
            // Regular printable character.
            c if c >= ' ' => {
                self.insert_char(c);
                EditorAction::Continue
            },
            // Ignore other control characters.
            _ => EditorAction::Continue,
        }
    }

    /// Inserts `c` at the cursor and moves the cursor past it.
    fn insert_char(&mut self, c: char)
        requires
            old(self).wf(),
            c != '\n',
        ensures
            final(self)@ == old(self)@.insert_text(seq![c]),
            final(self).wf(),
    {
        let ghost s = self@;
        let row = self.cursor_row;
        let col = self.cursor_col;
        let mut line: Vec<char> = Vec::new();
        self.lines.set_and_swap(row, &mut line);
        line.insert(col, c);
        // A vector's length fits in `usize`, so the column after `c` does too.
        assert(line.len() == line@.len());
        let ghost new_line = line@;
        self.lines.set(row, line);
        self.cursor_col = col + 1;
        self.modified = true;
        proof {
            assert(new_line =~= s.line().take(col as int) + seq![c] + s.line().skip(col as int));
            assert(self@.lines =~= s.insert_text(seq![c]).lines);
            lemma_insert_keeps_inv(s, seq![c]);
        }
    }

    /// Inserts four spaces at the cursor and moves the cursor past them.
    fn insert_tab(&mut self)
        requires
            old(self).wf(),
        ensures
            final(self)@ == old(self)@.insert_text(tab_spaces()),
    {
        let ghost s = self@;
        let mut i: usize = 0;
        while i < 4
            invariant
                0 <= i <= 4,
                s.inv(),
                self.wf(),
                i == 0 ==> self@ == s,
                i > 0 ==> self@ == s.insert_text(tab_spaces().take(i as int)),
            decreases 4 - i,
        {
            let ghost before = self@;
            self.insert_char(' ');
            proof {
                let l = s.line();
                let k = s.col as int;
                assert(tab_spaces().take(i + 1) =~= tab_spaces().take(i as int).push(' '));
                let t = tab_spaces().take(i as int);
                if i == 0 {
                    assert(l.take(k) + t + l.skip(k) =~= l);
                }
                assert(before.line() == l.take(k) + t + l.skip(k));
                assert(before.col == k + t.len());
                assert((l.take(k) + t + l.skip(k)).take(k + t.len()) =~= l.take(k) + t);
                assert((l.take(k) + t + l.skip(k)).skip(k + t.len()) =~= l.skip(k));
                let bl = before.line();
                let bc = before.col as int;
                assert(bl.take(bc) + seq![' '] + bl.skip(bc) =~= l.take(k) + tab_spaces().take(
                    i + 1,
                ) + l.skip(k));
                assert(before.lines =~= s.lines.update(s.row as int, bl));
                assert(self@.lines =~= s.insert_text(tab_spaces().take(i + 1)).lines);
            }
            i = i + 1;
        }
        assert(tab_spaces().take(4) =~= tab_spaces());
    }

    /// Ctrl+X: moves the cursor's line into the cut buffer.
    fn cut_line(&mut self)
        requires
            old(self).wf(),
        ensures
            final(self)@ == old(self)@.cut_line(),
    {
        let ghost s = self@;
        let row = self.cursor_row;
        if self.lines.len() > 1 {
            let removed = self.lines.remove(row);
            self.cut_buffer = Some(removed);
            if row >= self.lines.len() {
                self.cursor_row = self.lines.len() - 1;
            }
            assert(self@.lines =~= s.lines.remove(row as int));
        } else {
            let mut taken: Vec<char> = Vec::new();
            self.lines.set_and_swap(0, &mut taken);
            self.cut_buffer = Some(taken);
            assert(self@.lines =~= s.lines.update(0, Seq::<char>::empty()));
        }
        self.clamp_col();
        self.ensure_cursor_visible();
        self.modified = true;
    }

    /// Enter: splits the line at the cursor; the cursor goes to the new line's start.
    fn split_line(&mut self)
        requires
            old(self).wf(),
        ensures
            final(self)@ == old(self)@.split_line(),
    {
        let ghost s = self@;
        let row = self.cursor_row;
        let col = self.cursor_col;
        // The number of lines fits in `usize`, so the row below the cursor does too.
        assert(self.lines.len() == self.lines@.len());
        let mut line: Vec<char> = Vec::new();
        self.lines.set_and_swap(row, &mut line);
        let rest = line.split_off(col);
        self.lines.set(row, line);
        self.lines.insert(row + 1, rest);
        self.cursor_row = row + 1;
        self.cursor_col = 0;
        self.modified = true;
        assert(self@.lines =~= s.split_line().lines);
        self.ensure_cursor_visible();
    }

    /// Backspace: deletes the character before the cursor, or joins the line onto the
    /// previous one when the cursor is at its start.
    fn backspace(&mut self)
        requires
            old(self).wf(),
        ensures
            final(self)@ == old(self)@.backspace(),
    {
        let ghost s = self@;
        let row = self.cursor_row;
        if self.cursor_col > 0 {
            let col = self.cursor_col - 1;
            self.cursor_col = col;
            let mut line: Vec<char> = Vec::new();
            self.lines.set_and_swap(row, &mut line);
            line.remove(col);
            self.lines.set(row, line);
            self.modified = true;
            assert(self@.lines =~= s.backspace().lines);
        } else if row > 0 {
            // Join with previous line.
            let mut current = self.lines.remove(row);
            self.cursor_row = row - 1;
            let mut prev: Vec<char> = Vec::new();
            self.lines.set_and_swap(row - 1, &mut prev);
            self.cursor_col = prev.len();
            prev.append(&mut current);
            self.lines.set(row - 1, prev);
            self.modified = true;
            assert(self@.lines =~= s.lines.remove(row as int).update(
                row - 1,
                s.lines[row - 1] + s.line(),
            ));
            self.ensure_cursor_visible();
        }
    }

    /// Delete: deletes the character under the cursor, or joins the next line onto
    /// this one when the cursor is at its end.
    fn delete(&mut self)
        requires
            old(self).wf(),
        ensures
            final(self)@ == old(self)@.delete(),
    {
        let ghost s = self@;
        let row = self.cursor_row;
        let len = self.lines[row].len();
        if self.cursor_col < len {
            let mut line: Vec<char> = Vec::new();
            self.lines.set_and_swap(row, &mut line);
            line.remove(self.cursor_col);
            self.lines.set(row, line);
            self.modified = true;
            assert(self@.lines =~= s.delete().lines);
        } else if row < self.lines.len() - 1 {
            // Join next line onto current.
            let mut next = self.lines.remove(row + 1);
            let mut line: Vec<char> = Vec::new();
            self.lines.set_and_swap(row, &mut line);
            line.append(&mut next);
            self.lines.set(row, line);
            self.modified = true;
            assert(self@.lines =~= s.lines.remove(row + 1).update(
                row as int,
                s.line() + s.lines[row + 1],
            ));
        }
    }

    /// Process a raw keypress: arrows, Home, End, Page Up, Page Down and Delete; other
    /// keys are ignored.
    pub fn handle_raw_key(&mut self, key: NavKey) -> (action: EditorAction)
        requires
            old(self).wf(),
        ensures
            final(self)@ == raw_step(old(self)@, key),
            action@ == ActionView::Continue,
            final(self).wf(),
    {
        proof {
            lemma_step_keeps_inv(self@, EditorKey::RawKey(key));
        }
        let ghost s = self@;
        match key {
            NavKey::ArrowUp => {
                if self.cursor_row > 0 {
                    self.cursor_row = self.cursor_row - 1;
                    self.clamp_col();
                    self.ensure_cursor_visible();
                }
            },
            NavKey::ArrowDown => {
                if self.cursor_row < self.lines.len() - 1 {
                    self.cursor_row = self.cursor_row + 1;
                    self.clamp_col();
                    self.ensure_cursor_visible();
                }
            },
            NavKey::ArrowLeft => {
                if self.cursor_col > 0 {
                    self.cursor_col = self.cursor_col - 1;
                } else if self.cursor_row > 0 {
                    self.cursor_row = self.cursor_row - 1;
                    self.cursor_col = self.lines[self.cursor_row].len();
                    self.ensure_cursor_visible();
                }
            },
            NavKey::ArrowRight => {
                let len = self.lines[self.cursor_row].len();
                if self.cursor_col < len {
                    self.cursor_col = self.cursor_col + 1;
                } else if self.cursor_row < self.lines.len() - 1 {
                    self.cursor_row = self.cursor_row + 1;
                    self.cursor_col = 0;
                    self.ensure_cursor_visible();
                }
            },
            NavKey::Home => {
                self.cursor_col = 0;
            },
            NavKey::End => {
                self.cursor_col = self.lines[self.cursor_row].len();
            },
            NavKey::PageUp => {
                let jump = self.text_rows();
                self.cursor_row = self.cursor_row.saturating_sub(jump);
                self.clamp_col();
                self.ensure_cursor_visible();
            },
            NavKey::PageDown => {
                let jump = self.text_rows();
                let last = self.lines.len() - 1;
                // The smaller of `cursor_row + jump` and `last`, without overflow.
                self.cursor_row = if jump < last - self.cursor_row {
                    self.cursor_row + jump
                } else {
                    last
                };
                self.clamp_col();
                self.ensure_cursor_visible();
            },
            NavKey::Delete => {
                self.delete();
            },
            NavKey::Other => {},
        }
        EditorAction::Continue
    }
}

} // verus!
