//! Properties of the editor that span keypresses or hold of every keypress.

use crate::keys::{EditorKey, NavKey};
use crate::render::{
    decimal, digit_char, goto_row, pad_left, render_view, row_text, status_gap, status_left,
    status_right, text_area, utf8_len, utf8_width,
};
use crate::model::{
    lemma_step_keeps_inv, min_nat, step, tab_spaces, text_cols, text_rows, ActionView, EditorView,
    GUTTER_WIDTH,
};
use crate::text::{
    join_lines, lemma_join_prefixed, lemma_join_split, lemma_prefixed_at, lemma_split_join,
    newline_prefixed, split_lines, text_offset,
};
use vstd::prelude::*;

verus! {

/// Loading a text and then reading the content gives back that text.
pub proof fn law_load_then_content(text: Seq<char>)
    ensures
        join_lines(split_lines(text)) == text,
{
    lemma_join_split(text);
}

/// Loading the content of a well-formed editor gives back its lines.
pub proof fn law_content_then_load(s: EditorView)
    requires
        s.inv(),
    ensures
        split_lines(join_lines(s.lines)) == s.lines,
{
    lemma_split_join(s.lines);
}

/// Enter followed by Backspace gives back the lines and the cursor position that
/// the editor had before.
pub proof fn law_enter_then_backspace(s: EditorView)
    requires
        s.inv(),
    ensures
        ({
            let t = step(step(s, EditorKey::Unicode('\n')).0, EditorKey::Unicode('\x08')).0;
            &&& t.lines == s.lines
            &&& t.row == s.row
            &&& t.col == s.col
            &&& t.modified
        }),
{
    let a = step(s, EditorKey::Unicode('\n')).0;
    let line = s.line();
    let k = s.col as int;
    assert(a.row == s.row + 1);
    assert(a.col == 0);
    assert(a.lines[s.row as int] == line.take(k));
    assert(a.lines[s.row + 1int] == line.skip(k));
    let t = step(a, EditorKey::Unicode('\x08')).0;
    assert(line.take(k) + line.skip(k) =~= line);
    assert(t.lines =~= s.lines);
}

/// Typing a printable character and then Backspace gives back the lines and the
/// cursor position that the editor had before.
pub proof fn law_type_then_backspace(s: EditorView, c: char)
    requires
        s.inv(),
        c >= ' ',
        c != '\x7f',
    ensures
        ({
            let t = step(step(s, EditorKey::Unicode(c)).0, EditorKey::Unicode('\x08')).0;
            &&& t.lines == s.lines
            &&& t.row == s.row
            &&& t.col == s.col
            &&& t.modified
        }),
{
    let a = step(s, EditorKey::Unicode(c)).0;
    let line = s.line();
    let k = s.col as int;
    assert(a.lines[s.row as int] == line.take(k) + seq![c] + line.skip(k));
    let t = step(a, EditorKey::Unicode('\x08')).0;
    assert((line.take(k) + seq![c] + line.skip(k)).remove(k) =~= line);
    assert(t.lines =~= s.lines);
}

/// Raw keys other than Delete only move the cursor or the view: the text, the
/// modified flag, the filename and the cut buffer stay, and the action is Continue.
pub proof fn law_navigation_keeps_text(s: EditorView, k: NavKey)
    requires
        k != NavKey::Delete,
    ensures
        ({
            let (t, a) = step(s, EditorKey::RawKey(k));
            &&& t.lines == s.lines
            &&& t.modified == s.modified
            &&& t.filename == s.filename
            &&& t.cut == s.cut
            &&& t.width == s.width
            &&& t.height == s.height
            &&& a == ActionView::Continue
        }),
{
}

/// Only Ctrl+S asks to save: it hands back the filename and marks the buffer as
/// unmodified, changing nothing else. Only Ctrl+Q asks to quit, changing nothing.
/// Every other key answers Continue.
pub proof fn law_actions(s: EditorView, k: EditorKey)
    ensures
        step(s, k).1 is Save <==> k == EditorKey::Unicode('\x13'),
        step(s, k).1 is Quit <==> k == EditorKey::Unicode('\x11'),
        step(s, k).1 is Save ==> step(s, k).1 == ActionView::Save(s.filename),
        step(s, k).1 is Save ==> step(s, k).0 == (EditorView { modified: false, ..s }),
        step(s, k).1 is Quit ==> step(s, k).0 == s,
{
}

/// A keypress that changes the text marks the buffer as modified.
pub proof fn law_edits_mark_modified(s: EditorView, k: EditorKey)
    requires
        s.inv(),
    ensures
        step(s, k).0.lines != s.lines ==> step(s, k).0.modified,
{
}

/// No keypress changes the filename or the terminal size.
pub proof fn law_keys_keep_name_and_size(s: EditorView, k: EditorKey)
    ensures
        step(s, k).0.filename == s.filename,
        step(s, k).0.width == s.width,
        step(s, k).0.height == s.height,
{
}

/// The buffer as plain text, as `Editor::content` returns it.
pub open spec fn content(s: EditorView) -> Seq<char> {
    join_lines(s.lines)
}

/// The cursor's position in the plain text.
pub open spec fn cursor_offset(s: EditorView) -> nat {
    text_offset(s.lines, s.row, s.col)
}

/// The joined text around line `r`, before and after that line is replaced by `l`.
proof fn lemma_replace_line(lines: Seq<Seq<char>>, r: int, l: Seq<char>)
    requires
        0 <= r < lines.len(),
    ensures
        ({
            let before = (newline_prefixed(lines.take(r)) + seq!['\n']).skip(1);
            let after = newline_prefixed(lines.skip(r + 1));
            &&& join_lines(lines) == before + lines[r] + after
            &&& join_lines(lines.update(r, l)) == before + l + after
            &&& before.len() == newline_prefixed(lines.take(r)).len()
        }),
{
    let u = lines.update(r, l);
    lemma_prefixed_at(lines, r);
    lemma_prefixed_at(u, r);
    lemma_join_prefixed(lines);
    lemma_join_prefixed(u);
    assert(u.take(r) =~= lines.take(r));
    assert(u.skip(r + 1) =~= lines.skip(r + 1));
    let x = newline_prefixed(lines.take(r)) + seq!['\n'];
    let a = newline_prefixed(lines.skip(r + 1));
    assert((x + lines[r] + a).skip(1) =~= x.skip(1) + lines[r] + a);
    assert((x + l + a).skip(1) =~= x.skip(1) + l + a);
}

/// The newline-prefixed text of lines with one more line at the end.
proof fn lemma_prefixed_push(lines: Seq<Seq<char>>, l: Seq<char>)
    ensures
        newline_prefixed(lines.push(l)) == newline_prefixed(lines) + seq!['\n'] + l,
{
    assert(lines.push(l).drop_last() =~= lines);
}

/// Text typed at the cursor (a printable character, or the four spaces of Tab) goes
/// into the plain text at the cursor's position, and the cursor moves past it.
proof fn lemma_insert_text_content(s: EditorView, t: Seq<char>)
    requires
        s.inv(),
    ensures
        ({
            let off = cursor_offset(s) as int;
            &&& content(s.insert_text(t)) == content(s).take(off) + t + content(s).skip(off)
            &&& cursor_offset(s.insert_text(t)) == off + t.len()
        }),
{
    let r = s.row as int;
    let k = s.col as int;
    let line = s.line();
    let l2 = line.take(k) + t + line.skip(k);
    lemma_replace_line(s.lines, r, l2);
    let before = (newline_prefixed(s.lines.take(r)) + seq!['\n']).skip(1);
    let after = newline_prefixed(s.lines.skip(r + 1));
    let off = before.len() + k;
    let c = before + line + after;
    assert(c.take(off) =~= before + line.take(k));
    assert(c.skip(off) =~= line.skip(k) + after);
    assert(before + l2 + after =~= before + line.take(k) + t + (line.skip(k) + after));
    assert(s.insert_text(t).lines.take(r) =~= s.lines.take(r));
}

/// Typing a printable character inserts it into the plain text at the cursor, and
/// the cursor moves past it.
pub proof fn law_typing_inserts(s: EditorView, c: char)
    requires
        s.inv(),
        c >= ' ',
        c != '\x7f',
    ensures
        ({
            let t = step(s, EditorKey::Unicode(c)).0;
            let off = cursor_offset(s) as int;
            &&& content(t) == content(s).insert(off, c)
            &&& cursor_offset(t) == off + 1
            &&& t.row == s.row
            &&& t.modified
        }),
{
    lemma_insert_text_content(s, seq![c]);
    let off = cursor_offset(s) as int;
    assert(content(s).take(off) + seq![c] + content(s).skip(off) =~= content(s).insert(off, c));
}

/// Tab inserts four spaces into the plain text at the cursor, and the cursor moves
/// past them.
pub proof fn law_tab_inserts_spaces(s: EditorView)
    requires
        s.inv(),
    ensures
        ({
            let t = step(s, EditorKey::Unicode('\t')).0;
            let off = cursor_offset(s) as int;
            &&& content(t) == content(s).take(off) + seq![' ', ' ', ' ', ' '] + content(s).skip(off)
            &&& cursor_offset(t) == off + 4
            &&& t.row == s.row
            &&& t.modified
        }),
{
    lemma_insert_text_content(s, tab_spaces());
    assert(tab_spaces() =~= seq![' ', ' ', ' ', ' ']);
}

/// Enter inserts a newline into the plain text at the cursor, and the cursor moves
/// past it.
pub proof fn law_enter_inserts_newline(s: EditorView, c: char)
    requires
        s.inv(),
        c == '\n' || c == '\r',
    ensures
        ({
            let t = step(s, EditorKey::Unicode(c)).0;
            let off = cursor_offset(s) as int;
            &&& content(t) == content(s).insert(off, '\n')
            &&& cursor_offset(t) == off + 1
            &&& t.row == s.row + 1
            &&& t.col == 0
            &&& t.modified
        }),
{
    assert(step(s, EditorKey::Unicode(c)).0 == s.split_line());
    lemma_split_line_content(s);
}

proof fn lemma_split_line_content(s: EditorView)
    requires
        s.inv(),
    ensures
        ({
            let t = s.split_line();
            let off = cursor_offset(s) as int;
            &&& content(t) == content(s).insert(off, '\n')
            &&& cursor_offset(t) == off + 1
        }),
{
    let r = s.row as int;
    let k = s.col as int;
    let line = s.line();
    let a = line.take(k);
    let b = line.skip(k);
    let t = s.split_line();
    let lines2 = t.lines;
    assert(lines2 == s.lines.update(r, a).insert(r + 1, b));
    let pt = newline_prefixed(s.lines.take(r));
    let pu = newline_prefixed(s.lines.skip(r + 1));
    // The text before the edit.
    lemma_prefixed_at(s.lines, r);
    lemma_join_prefixed(s.lines);
    // The text after the edit, seen around the new line `r + 1`.
    lemma_prefixed_at(lines2, r + 1);
    lemma_join_prefixed(lines2);
    assert(lines2.take(r + 1) =~= s.lines.take(r).push(a));
    lemma_prefixed_push(s.lines.take(r), a);
    assert(lines2.skip(r + 2) =~= s.lines.skip(r + 1));
    assert(lines2[r + 1] == b);
    let x = pt + seq!['\n'];
    assert((x + line + pu).skip(1) =~= x.skip(1) + line + pu);
    assert((pt + seq!['\n'] + a + seq!['\n'] + b + pu).skip(1) =~= x.skip(1) + a + seq!['\n'] + b
        + pu);
    let off = x.skip(1).len() + k;
    assert((x.skip(1) + line + pu).insert(off, '\n') =~= x.skip(1) + a + seq!['\n'] + b + pu);
}

/// Backspace removes the character before the cursor from the plain text (a newline
/// when the cursor starts a line), and the cursor moves back over it; at the very
/// start of the text it does nothing.
pub proof fn law_backspace_removes(s: EditorView, c: char)
    requires
        s.inv(),
        c == '\x08' || c == '\x7f',
    ensures
        ({
            let t = step(s, EditorKey::Unicode(c)).0;
            let off = cursor_offset(s) as int;
            &&& off > 0 ==> content(t) == content(s).remove(off - 1) && cursor_offset(t) == off
                - 1 && t.modified
            &&& off == 0 ==> t == s
        }),
{
    assert(step(s, EditorKey::Unicode(c)).0 == s.backspace());
    lemma_backspace_content(s);
}

/// Joining line `r` onto line `r - 1` removes the newline between them from the
/// joined text; that newline stands right after line `r - 1`.
proof fn lemma_join_with_previous(lines: Seq<Seq<char>>, r: int)
    requires
        1 <= r < lines.len(),
    ensures
        ({
            let lines2 = lines.remove(r).update(r - 1, lines[r - 1] + lines[r]);
            let o = newline_prefixed(lines.take(r)).len();
            &&& o >= 1
            &&& newline_prefixed(lines2.take(r - 1)).len() + lines[r - 1].len() == o - 1
            &&& join_lines(lines2) == join_lines(lines).remove(o - 1)
        }),
{
    let prev = lines[r - 1];
    let line = lines[r];
    let lines2 = lines.remove(r).update(r - 1, prev + line);
    let pt = newline_prefixed(lines.take(r));
    let pt2 = newline_prefixed(lines.take(r - 1));
    let pu = newline_prefixed(lines.skip(r + 1));
    let x = pt2 + seq!['\n'];
    assert(pt == pt2 + seq!['\n'] + prev) by {
        assert(lines.take(r) =~= lines.take(r - 1).push(prev));
        lemma_prefixed_push(lines.take(r - 1), prev);
    }
    assert(join_lines(lines) == x.skip(1) + prev + seq!['\n'] + line + pu) by {
        lemma_prefixed_at(lines, r);
        lemma_join_prefixed(lines);
        assert((pt + seq!['\n'] + line + pu).skip(1) =~= x.skip(1) + prev + seq!['\n'] + line + pu);
    }
    assert(join_lines(lines2) == x.skip(1) + prev + line + pu) by {
        lemma_prefixed_at(lines2, r - 1);
        lemma_join_prefixed(lines2);
        assert(lines2.take(r - 1) =~= lines.take(r - 1));
        assert(lines2.skip(r) =~= lines.skip(r + 1));
        assert((pt2 + seq!['\n'] + (prev + line) + pu).skip(1) =~= x.skip(1) + prev + line + pu);
    }
    assert(lines2.take(r - 1) =~= lines.take(r - 1));
    assert((x.skip(1) + prev + seq!['\n'] + line + pu).remove(x.skip(1).len() + prev.len() as int)
        =~= x.skip(1) + prev + line + pu);
}

/// Removing the character at column `k` of line `r` removes it from the joined text.
proof fn lemma_remove_in_line(lines: Seq<Seq<char>>, r: int, k: int)
    requires
        0 <= r < lines.len(),
        0 <= k < lines[r].len(),
    ensures
        ({
            let lines2 = lines.update(r, lines[r].remove(k));
            let o = newline_prefixed(lines.take(r)).len() + k;
            &&& join_lines(lines2) == join_lines(lines).remove(o)
            &&& lines2.take(r) == lines.take(r)
        }),
{
    let line = lines[r];
    lemma_replace_line(lines, r, line.remove(k));
    let before = (newline_prefixed(lines.take(r)) + seq!['\n']).skip(1);
    let after = newline_prefixed(lines.skip(r + 1));
    assert((before + line + after).remove(before.len() + k) =~= before + line.remove(k) + after);
    assert(lines.update(r, line.remove(k)).take(r) =~= lines.take(r));
}

proof fn lemma_backspace_content(s: EditorView)
    requires
        s.inv(),
    ensures
        ({
            let t = s.backspace();
            let off = cursor_offset(s) as int;
            &&& off > 0 ==> content(t) == content(s).remove(off - 1) && cursor_offset(t) == off
                - 1 && t.modified
            &&& off == 0 ==> t == s
        }),
{
    let r = s.row as int;
    let k = s.col as int;
    if k > 0 {
        lemma_remove_in_line(s.lines, r, k - 1);
    } else if r > 0 {
        lemma_join_with_previous(s.lines, r);
    } else {
        assert(s.lines.take(0) =~= Seq::<Seq<char>>::empty());
        assert(newline_prefixed(Seq::<Seq<char>>::empty()) =~= Seq::<char>::empty());
    }
}

/// Delete removes the character at the cursor from the plain text (a newline at the
/// end of a line), and the cursor stays; at the very end of the text it does nothing.
pub proof fn law_delete_removes(s: EditorView)
    requires
        s.inv(),
    ensures
        ({
            let t = step(s, EditorKey::RawKey(NavKey::Delete)).0;
            let off = cursor_offset(s) as int;
            &&& off < content(s).len() ==> content(t) == content(s).remove(off)
                && cursor_offset(t) == off && t.row == s.row && t.col == s.col && t.modified
            &&& off >= content(s).len() ==> t == s
        }),
{
    assert(step(s, EditorKey::RawKey(NavKey::Delete)).0 == s.delete());
    lemma_delete_content(s);
}

proof fn lemma_delete_content(s: EditorView)
    requires
        s.inv(),
    ensures
        ({
            let t = s.delete();
            let off = cursor_offset(s) as int;
            &&& off < content(s).len() ==> content(t) == content(s).remove(off)
                && cursor_offset(t) == off && t.row == s.row && t.col == s.col && t.modified
            &&& off >= content(s).len() ==> t == s
        }),
{
    let r = s.row as int;
    let k = s.col as int;
    let line = s.line();
    lemma_replace_line(s.lines, r, line);
    assert(s.lines.update(r, line) =~= s.lines);
    if k < line.len() {
        lemma_remove_in_line(s.lines, r, k);
    } else if r + 1 < s.lines.len() {
        lemma_join_with_previous(s.lines, r + 1);
        assert(s.lines.take(r + 1) =~= s.lines.take(r).push(line));
        lemma_prefixed_push(s.lines.take(r), line);
        assert(s.lines.remove(r + 1).update(r, line + s.lines[r + 1]).take(r) =~= s.lines.take(r));
    } else {
        assert(s.lines.skip(r + 1) =~= Seq::<Seq<char>>::empty());
        assert(newline_prefixed(Seq::<Seq<char>>::empty()) =~= Seq::<char>::empty());
    }
}

/// ArrowLeft moves the cursor one character back in the plain text (not before its
/// start), ArrowRight one character forward (not past its end); the text and the
/// modified flag stay.
pub proof fn law_horizontal_arrows_move_one_character(s: EditorView, k: NavKey)
    requires
        s.inv(),
        k == NavKey::ArrowLeft || k == NavKey::ArrowRight,
    ensures
        ({
            let t = step(s, EditorKey::RawKey(k)).0;
            let off = cursor_offset(s);
            let n = content(s).len();
            &&& content(t) == content(s)
            &&& t.modified == s.modified
            &&& k == NavKey::ArrowLeft ==> cursor_offset(t) == if off > 0 {
                (off - 1) as nat
            } else {
                0
            }
            &&& k == NavKey::ArrowRight ==> cursor_offset(t) == min_nat(off + 1, n)
        }),
{
    let r = s.row as int;
    let c = s.col as int;
    let line = s.line();
    let t = step(s, EditorKey::RawKey(k)).0;
    lemma_replace_line(s.lines, r, line);
    assert(s.lines.update(r, line) =~= s.lines);
    let after = newline_prefixed(s.lines.skip(r + 1));
    assert(t.lines == s.lines);
    if k == NavKey::ArrowLeft {
        if c == 0 && r > 0 {
            assert(s.lines.take(r) =~= s.lines.take(r - 1).push(s.lines[r - 1]));
            lemma_prefixed_push(s.lines.take(r - 1), s.lines[r - 1]);
        } else if c == 0 {
            assert(s.lines.take(0) =~= Seq::<Seq<char>>::empty());
            assert(newline_prefixed(Seq::<Seq<char>>::empty()) =~= Seq::<char>::empty());
        }
    } else {
        if c >= line.len() && r + 1 < s.lines.len() {
            assert(s.lines.take(r + 1) =~= s.lines.take(r).push(line));
            lemma_prefixed_push(s.lines.take(r), line);
            lemma_join_prefixed(s.lines.skip(r + 1));
        } else if c >= line.len() {
            assert(s.lines.skip(r + 1) =~= Seq::<Seq<char>>::empty());
            assert(newline_prefixed(Seq::<Seq<char>>::empty()) =~= Seq::<char>::empty());
        }
    }
}

/// The row that ArrowUp, ArrowDown, PageUp or PageDown moves the cursor to: one row
/// or one screen of rows up or down, stopping at the first and the last line.
pub open spec fn vertical_target(s: EditorView, k: NavKey) -> nat {
    let last = (s.lines.len() - 1) as nat;
    let rows = text_rows(s.height);
    match k {
        NavKey::ArrowUp => if s.row > 0 {
            (s.row - 1) as nat
        } else {
            0
        },
        NavKey::ArrowDown => min_nat(s.row + 1, last),
        NavKey::PageUp => if s.row >= rows {
            (s.row - rows) as nat
        } else {
            0
        },
        _ => min_nat(s.row + rows, last),
    }
}

/// ArrowUp, ArrowDown, PageUp and PageDown move the cursor to the target row, with
/// the column pulled back to the end of that row; the text and the modified flag
/// stay, and the view scrolls so that the cursor is on screen.
pub proof fn law_vertical_moves(s: EditorView, k: NavKey)
    requires
        s.inv(),
        k == NavKey::ArrowUp || k == NavKey::ArrowDown || k == NavKey::PageUp || k
            == NavKey::PageDown,
    ensures
        ({
            let t = step(s, EditorKey::RawKey(k)).0;
            let r2 = vertical_target(s, k);
            &&& t.row == r2
            &&& t.col == min_nat(s.col, s.lines[r2 as int].len())
            &&& t.lines == s.lines
            &&& t.modified == s.modified
            &&& t.scroll <= t.row < t.scroll + text_rows(t.height)
        }),
{
    lemma_step_keeps_inv(s, EditorKey::RawKey(k));
    let c = s.col;
    let r2 = vertical_target(s, k);
    if k == NavKey::ArrowUp && s.row == 0 || k == NavKey::ArrowDown && s.row + 1
        >= s.lines.len() {
        assert(c <= s.lines[r2 as int].len());
    }
}

/// Home moves the cursor to the start of its line and End to its end; nothing else
/// changes.
pub proof fn law_home_end(s: EditorView)
    ensures
        step(s, EditorKey::RawKey(NavKey::Home)).0 == s.at(s.row, 0),
        step(s, EditorKey::RawKey(NavKey::End)).0 == s.at(s.row, s.line().len()),
{
}

/// Raw keys that the editor does not handle change nothing.
pub proof fn law_other_keys_change_nothing(s: EditorView)
    ensures
        step(s, EditorKey::RawKey(NavKey::Other)) == (s, ActionView::Continue),
{
}

/// Ctrl+X removes the cursor's line (the only line is emptied instead) and keeps it
/// in the cut buffer; the cursor stays on the same row, or the new last row, with its
/// column pulled back to the end of that row; the buffer counts as modified.
pub proof fn law_cut_line(s: EditorView)
    requires
        s.inv(),
    ensures
        ({
            let t = step(s, EditorKey::Unicode('\x18')).0;
            let n = s.lines.len();
            &&& t.lines == if n > 1 {
                s.lines.remove(s.row as int)
            } else {
                seq![Seq::<char>::empty()]
            }
            &&& t.row == if n > 1 {
                min_nat(s.row, (n - 2) as nat)
            } else {
                0
            }
            &&& t.col == min_nat(s.col, t.lines[t.row as int].len())
            &&& t.cut == Some(s.line())
            &&& t.modified
            &&& t.inv()
        }),
{
    lemma_step_keeps_inv(s, EditorKey::Unicode('\x18'));
    if s.lines.len() == 1 {
        assert(s.lines.update(0, Seq::<char>::empty()) =~= seq![Seq::<char>::empty()]);
    }
}

/// Control characters other than the editor's own (Ctrl+S, Ctrl+Q, Ctrl+X, Enter,
/// carriage return, Backspace and Tab) are ignored: the state, its lines and the
/// modified flag included, stays as it was.
pub proof fn law_other_control_characters_ignored(s: EditorView, c: char)
    requires
        c < ' ',
        c != '\x13',
        c != '\x11',
        c != '\x18',
        c != '\n',
        c != '\r',
        c != '\x08',
        c != '\t',
    ensures
        step(s, EditorKey::Unicode(c)) == (s, ActionView::Continue),
{
}

/// Every key scrolls as little as it can: when the cursor's new row is still inside
/// the rows that were on screen, the view does not move; when it is above them, it
/// becomes the top row; when it is below them, it becomes the bottom row.
pub proof fn law_minimal_scroll(s: EditorView, k: EditorKey)
    requires
        s.inv(),
    ensures
        ({
            let t = step(s, k).0;
            let rows = text_rows(t.height);
            &&& t.height == s.height
            &&& s.scroll <= t.row < s.scroll + rows ==> t.scroll == s.scroll
            &&& t.row < s.scroll ==> t.scroll == t.row
            &&& t.row >= s.scroll + rows ==> t.scroll == t.row - rows + 1
        }),
{
}

/// A line number below 10000 fills a gutter field of exactly four characters: spaces,
/// then its digits, so the separator after it stands in the same column on every row.
pub proof fn law_gutter_field_width(n: nat)
    requires
        1 <= n < 10000,
    ensures
        ({
            let d = decimal(n);
            let g = pad_left(d, 4);
            &&& 1 <= d.len() <= 4
            &&& g.len() == 4
            &&& g.skip(4 - d.len()) == d
            &&& forall|i: int| 0 <= i < 4 - d.len() ==> g[i] == ' '
        }),
{
    let d = decimal(n);
    assert(1 <= d.len() <= 4) by {
        lemma_decimal_len_small(n);
    }
    let g = pad_left(d, 4);
    assert(g.skip(4 - d.len()) =~= d);
}

proof fn lemma_decimal_len_small(n: nat)
    requires
        n < 10000,
    ensures
        1 <= decimal(n).len() <= 4,
    decreases n,
{
    if n >= 10 {
        lemma_decimal_len_small(n / 10);
        if n < 100 {
            assert(decimal(n / 10).len() == 1);
        } else if n < 1000 {
            lemma_decimal_len_below(n / 10, 100);
        } else {
            lemma_decimal_len_below(n / 10, 1000);
        }
    }
}

proof fn lemma_decimal_len_below(n: nat, b: nat)
    requires
        n < b,
        b == 100 || b == 1000,
    ensures
        b == 100 ==> decimal(n).len() <= 2,
        b == 1000 ==> decimal(n).len() <= 3,
    decreases n,
{
    if n >= 10 {
        if b == 100 {
            assert(n / 10 < 10);
            assert(decimal(n / 10).len() == 1);
        } else {
            lemma_decimal_len_below(n / 10, 100);
        }
    }
}

/// The screen is the text rows, a status bar and a help bar: the text rows are the
/// height less those two bars (at least one row); the text columns are the width
/// less the six-column gutter (at least one column).
pub proof fn law_text_area_size(width: nat, height: nat)
    ensures
        height > 2 ==> text_rows(height) + 2 == height,
        height <= 2 ==> text_rows(height) == 1,
        GUTTER_WIDTH == 6,
        width > 6 ==> text_cols(width) + 6 == width,
        width <= 6 ==> text_cols(width) == 1,
{
}

/// The value of a string of decimal digits.
pub open spec fn digits_value(ds: Seq<char>) -> nat
    decreases ds.len(),
{
    if ds.len() == 0 {
        0
    } else {
        digits_value(ds.drop_last()) * 10 + ((ds.last() as u32 - '0' as u32) as nat)
    }
}

/// The decimal form of a number is made of the digits `'0'` to `'9'`, has no leading
/// zero, and reads back as the number.
pub proof fn law_decimal_reads_back(n: nat)
    ensures
        decimal(n).len() >= 1,
        forall|i: int| 0 <= i < decimal(n).len() ==> '0' <= #[trigger] decimal(n)[i] <= '9',
        n > 0 ==> decimal(n)[0] != '0',
        digits_value(decimal(n)) == n,
    decreases n,
{
    let d = decimal(n);
    let c = digit_char(n % 10);
    assert(c as u32 - '0' as u32 == n % 10);
    assert(d.last() == c);
    if n < 10 {
        assert(d.drop_last() =~= Seq::<char>::empty());
        assert(digits_value(Seq::<char>::empty()) == 0);
        assert(digits_value(d) == digits_value(d.drop_last()) * 10 + ((d.last() as u32 - '0' as u32) as nat));
    } else {
        law_decimal_reads_back(n / 10);
        assert(d.drop_last() =~= decimal(n / 10));
        assert(digits_value(d) == digits_value(d.drop_last()) * 10 + ((d.last() as u32 - '0' as u32) as nat));
        assert(digits_value(d) == (n / 10) * 10 + n % 10);
        assert(d[0] == decimal(n / 10)[0]);
        assert forall|i: int| 0 <= i < d.len() implies '0' <= #[trigger] d[i] <= '9' by {
            if i < d.len() - 1 {
                assert(d[i] == decimal(n / 10)[i]);
            }
        }
    }
}

/// `utf8_len` counts the bytes of the UTF-8 encoding (what Rust's `str::len` gives).
pub proof fn law_utf8_len_is_encoded_length(s: Seq<char>)
    ensures
        utf8_len(s) == vstd::utf8::encode_utf8(s).len(),
    decreases s.len(),
{
    if s.len() > 0 {
        law_utf8_len_is_encoded_length(s.drop_first());
        lemma_utf8_len_first(s);
        let c = s[0];
        assert(vstd::utf8::is_scalar(c as u32)) by {
            vstd::utf8::char_is_scalar(c);
        }
        assert(utf8_width(c) == vstd::utf8::encode_scalar(c as u32).len());
    }
}

proof fn lemma_utf8_len_first(s: Seq<char>)
    requires
        s.len() > 0,
    ensures
        utf8_len(s) == utf8_width(s[0]) + utf8_len(s.drop_first()),
    decreases s.len(),
{
    if s.len() > 1 {
        lemma_utf8_len_first(s.drop_last());
        assert(s.drop_last().drop_first() =~= s.drop_first().drop_last());
        assert(s.drop_last()[0] == s[0]);
        assert(s.drop_first().last() == s.last());
    } else {
        assert(s.drop_first() =~= Seq::<char>::empty());
        assert(s.drop_last() =~= Seq::<char>::empty());
    }
}

/// The status bar fills the terminal width exactly when its two parts fit: the
/// bytes of the left part, the gap and the bytes of the right part add up to the
/// width; when they do not fit there is no gap.
pub proof fn law_status_bar_fills_width(s: EditorView)
    ensures
        ({
            let used = utf8_len(status_left(s)) + utf8_len(status_right(s));
            &&& used <= s.width ==> used + status_gap(s) == s.width
            &&& used >= s.width ==> status_gap(s) == 0
        }),
{
}

/// The screen starts by hiding the cursor and going home, and ends by putting the
/// cursor on its screen row (rows counted from the top of the view) and on its column
/// after the six-column gutter, then showing it.
pub proof fn law_render_frame(s: EditorView)
    requires
        s.inv(),
    ensures
        ({
            let out = render_view(s);
            let head = "\x1b[?25l\x1b[H"@;
            let tail = "\x1b["@ + decimal((s.row - s.scroll + 1) as nat) + ";"@ + decimal(
                s.col + 7,
            ) + "H"@ + "\x1b[?25h"@;
            &&& out.take(head.len() as int) == head
            &&& out.skip(out.len() - tail.len()) == tail
        }),
{
    let out = render_view(s);
    let head = "\x1b[?25l\x1b[H"@;
    let tail = "\x1b["@ + decimal((s.row - s.scroll + 1) as nat) + ";"@ + decimal(s.col + 7) + "H"@
        + "\x1b[?25h"@;
    let rows = text_rows(s.height);
    let mid = text_area(s, rows) + goto_row(rows + 1) + "\x1b[7m"@ + status_left(s)
        + crate::render::spaces(status_gap(s)) + status_right(s) + "\x1b[0m"@ + goto_row(rows + 2)
        + "\x1b[90m ^S Save  ^Q Quit  ^X Cut line\x1b[0m\x1b[K"@;
    assert(out =~= head + mid + tail);
    assert((head + mid + tail).take(head.len() as int) =~= head);
    assert((head + mid + tail).skip((head + mid).len() as int) =~= tail);
}

/// Text row `r` shows line `scroll + r` when there is one: its number right-aligned
/// in the four-column field, then as much of the line as fits in the text columns
/// (all of it when it fits); past the end of the buffer it shows a tilde.
pub proof fn law_text_row(s: EditorView, r: nat)
    ensures
        ({
            let idx = s.scroll + r;
            let head = goto_row(r + 1);
            &&& idx < s.lines.len() ==> {
                let line = s.lines[idx as int];
                let shown = if line.len() <= text_cols(s.width) {
                    line
                } else {
                    line.take(text_cols(s.width) as int)
                };
                row_text(s, r) == head + "\x1b[90m"@ + pad_left(decimal(idx + 1), 4)
                    + " \x1b[34m\u{2502}\x1b[0m"@ + shown + "\x1b[K"@
            }
            &&& idx >= s.lines.len() ==> row_text(s, r) == head
                + "\x1b[90m   ~ \x1b[34m\u{2502}\x1b[0m"@ + "\x1b[K"@
        }),
{
    let idx = s.scroll + r;
    if idx < s.lines.len() {
        let line = s.lines[idx as int];
        if line.len() <= text_cols(s.width) {
            assert(line.take(line.len() as int) =~= line);
        }
    }
}

/// The status bar shows the filename after a space, ` [+]` exactly when the buffer
/// is modified, and the cursor position counted from 1 as `Ln <row>, Col <col> `.
pub proof fn law_status_bar_parts(s: EditorView)
    ensures
        s.modified ==> status_left(s) == " "@ + s.filename + " [+]"@,
        !s.modified ==> status_left(s) == " "@ + s.filename,
        status_right(s) == "Ln "@ + decimal(s.row + 1) + ", Col "@ + decimal(s.col + 1) + " "@,
{
    assert(" "@ + s.filename + Seq::<char>::empty() =~= " "@ + s.filename);
}

} // verus!
