//! The screen as ANSI escape sequences: what the editor draws, and the pieces that
//! draw it.

use crate::model::{min_nat, text_cols, text_rows, EditorView, GUTTER_WIDTH};
use crate::text::push_char;
use vstd::prelude::*;

verus! {

/// The decimal digit for `d` (below ten).
pub open spec fn digit_char(d: nat) -> char {
    if d == 0 {
        '0'
    } else if d == 1 {
        '1'
    } else if d == 2 {
        '2'
    } else if d == 3 {
        '3'
    } else if d == 4 {
        '4'
    } else if d == 5 {
        '5'
    } else if d == 6 {
        '6'
    } else if d == 7 {
        '7'
    } else if d == 8 {
        '8'
    } else {
        '9'
    }
}

/// `n` written in decimal, without leading zeros.
pub open spec fn decimal(n: nat) -> Seq<char>
    decreases n,
{
    if n < 10 {
        seq![digit_char(n)]
    } else {
        decimal(n / 10).push(digit_char(n % 10))
    }
}

/// `n` spaces.
pub open spec fn spaces(n: nat) -> Seq<char> {
    Seq::new(n, |i: int| ' ')
}

/// `s` right-aligned in a field of `width` characters (as `{:>width}` formats it).
pub open spec fn pad_left(s: Seq<char>, width: nat) -> Seq<char> {
    if s.len() < width {
        spaces((width - s.len()) as nat) + s
    } else {
        s
    }
}

/// The number of bytes that UTF-8 takes for `c`.
pub open spec fn utf8_width(c: char) -> nat {
    let v = c as u32;
    if v < 0x80 {
        1
    } else if v < 0x800 {
        2
    } else if v < 0x10000 {
        3
    } else {
        4
    }
}

/// The number of bytes that UTF-8 takes for `s`.
pub open spec fn utf8_len(s: Seq<char>) -> nat
    decreases s.len(),
{
    if s.len() == 0 {
        0
    } else {
        utf8_len(s.drop_last()) + utf8_width(s.last())
    }
}

/// The escape sequence that moves to the start of screen row `row` (1-based).
pub open spec fn goto_row(row: nat) -> Seq<char> {
    "\x1b["@ + decimal(row) + ";1H"@
}

/// Screen row `r` of the text area (0-based): the gutter with the line number and
/// as much of the line as fits, or a tilde past the end of the buffer.
pub open spec fn row_text(s: EditorView, r: nat) -> Seq<char> {
    let idx = s.scroll + r;
    goto_row(r + 1) + (if idx < s.lines.len() {
        "\x1b[90m"@ + pad_left(decimal(idx + 1), 4) + " \x1b[34m\u{2502}\x1b[0m"@
            + s.lines[idx as int].take(min_nat(s.lines[idx as int].len(), text_cols(s.width)) as int)
    } else {
        "\x1b[90m   ~ \x1b[34m\u{2502}\x1b[0m"@
    }) + "\x1b[K"@
}

/// The first `k` rows of the text area.
pub open spec fn text_area(s: EditorView, k: nat) -> Seq<char>
    decreases k,
{
    if k == 0 {
        Seq::<char>::empty()
    } else {
        text_area(s, (k - 1) as nat) + row_text(s, (k - 1) as nat)
    }
}

/// The left part of the status bar: the filename, and `[+]` when modified.
pub open spec fn status_left(s: EditorView) -> Seq<char> {
    " "@ + s.filename + if s.modified {
        " [+]"@
    } else {
        Seq::<char>::empty()
    }
}

/// The right part of the status bar: the cursor position, 1-based.
pub open spec fn status_right(s: EditorView) -> Seq<char> {
    "Ln "@ + decimal(s.row + 1) + ", Col "@ + decimal(s.col + 1) + " "@
}

/// The spaces between the two parts of the status bar: the width that their bytes
/// leave free (none when they fill it).
pub open spec fn status_gap(s: EditorView) -> nat {
    let used = utf8_len(status_left(s)) + utf8_len(status_right(s));
    if s.width > used {
        (s.width - used) as nat
    } else {
        0
    }
}

/// The whole screen: hide the cursor, draw the text rows, the status bar and the help
/// bar, then put the cursor at its place and show it.
pub open spec fn render_view(s: EditorView) -> Seq<char> {
    let rows = text_rows(s.height);
    "\x1b[?25l\x1b[H"@ + text_area(s, rows) + goto_row(rows + 1) + "\x1b[7m"@ + status_left(s)
        + spaces(status_gap(s)) + status_right(s) + "\x1b[0m"@ + goto_row(rows + 2)
        + "\x1b[90m ^S Save  ^Q Quit  ^X Cut line\x1b[0m\x1b[K"@ + "\x1b["@ + decimal(
        (s.row - s.scroll + 1) as nat,
    ) + ";"@ + decimal((s.col + GUTTER_WIDTH + 1) as nat) + "H"@ + "\x1b[?25h"@
}

/// The decimal digit for `d`.
fn digit(d: u128) -> (c: char)
    requires
        d < 10,
    ensures
        c == digit_char(d as nat),
{
    if d == 0 {
        '0'
    } else if d == 1 {
        '1'
    } else if d == 2 {
        '2'
    } else if d == 3 {
        '3'
    } else if d == 4 {
        '4'
    } else if d == 5 {
        '5'
    } else if d == 6 {
        '6'
    } else if d == 7 {
        '7'
    } else if d == 8 {
        '8'
    } else {
        '9'
    }
}

/// Appends `n` in decimal.
pub fn push_decimal(out: &mut String, n: u128)
    ensures
        final(out)@ == old(out)@ + decimal(n as nat),
    decreases n,
{
    if n >= 10 {
        push_decimal(out, n / 10);
    }
    push_char(out, digit(n % 10));
}

/// The number of digits of `n` in decimal.
pub fn decimal_len(n: usize) -> (len: usize)
    ensures
        len == decimal(n as nat).len(),
    decreases n,
{
    if n >= 10 {
        let k = decimal_len(n / 10);
        proof {
            lemma_decimal_len_le((n / 10) as nat);
        }
        k + 1
    } else {
        1
    }
}

/// A positive number has no more decimal digits than its value.
proof fn lemma_decimal_len_le(n: nat)
    requires
        n >= 1,
    ensures
        decimal(n).len() <= n,
    decreases n,
{
    if n >= 10 {
        lemma_decimal_len_le(n / 10);
    }
}

/// Appends the escape sequence that moves to the start of screen row `row`.
pub fn push_goto_row(out: &mut String, row: u128)
    ensures
        final(out)@ == old(out)@ + goto_row(row as nat),
{
    out.append("\x1b[");
    push_decimal(out, row);
    out.append(";1H");
    assert(out@ =~= old(out)@ + goto_row(row as nat));
}

/// Appends `n` spaces.
pub fn push_spaces(out: &mut String, n: usize)
    ensures
        final(out)@ == old(out)@ + spaces(n as nat),
{
    let ghost start = out@;
    let mut i: usize = 0;
    while i < n
        invariant
            i <= n,
            out@ == start + spaces(i as nat),
        decreases n - i,
    {
        push_char(out, ' ');
        assert(spaces((i + 1) as nat) =~= spaces(i as nat).push(' '));
        i = i + 1;
    }
}

/// Appends `n` in decimal, right-aligned in a field of `width` characters.
pub fn push_padded_decimal(out: &mut String, n: usize, width: usize)
    ensures
        final(out)@ == old(out)@ + pad_left(decimal(n as nat), width as nat),
{
    let len = decimal_len(n);
    if len < width {
        push_spaces(out, width - len);
    }
    push_decimal(out, n as u128);
}

/// The number of bytes that UTF-8 takes for `c`.
fn char_utf8_width(c: char) -> (w: u128)
    ensures
        w == utf8_width(c),
{
    let v = c as u32;
    if v < 0x80 {
        1
    } else if v < 0x800 {
        2
    } else if v < 0x10000 {
        3
    } else {
        4
    }
}

/// `n`, or `u128::MAX` when it is larger.
pub open spec fn saturated(n: nat) -> nat {
    if n < u128::MAX {
        n
    } else {
        u128::MAX as nat
    }
}

/// The number of bytes that UTF-8 takes for `s` (its `len()` in Rust), saturated
/// at `u128::MAX`.
pub fn utf8_len_of(s: &str) -> (n: u128)
    ensures
        n == saturated(utf8_len(s@)),
{
    let mut n: u128 = 0;
    for c in it: s.chars()
        invariant
            it.seq() == s@,
            n == saturated(utf8_len(s@.take(it.index() as int))),
    {
        assert(s@.take(it.index() + 1).drop_last() =~= s@.take(it.index() as int));
        let w = char_utf8_width(c);
        if n > u128::MAX - w {
            n = u128::MAX;
        } else {
            n = n + w;
        }
    }
    assert(s@.take(s@.len() as int) =~= s@);
    n
}

} // verus!
