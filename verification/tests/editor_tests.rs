use editor_nostd::{Editor, EditorAction, EditorKey, NavKey};
use pc_keyboard::{DecodedKey, KeyCode};

fn text_of(ed: &Editor, i: usize) -> String {
    ed.line(i).unwrap()
}

#[test]
fn new_editor_has_one_empty_line() {
    let ed = Editor::new(80, 24);
    assert_eq!(ed.line_count(), 1);
    assert!(ed.line(0).unwrap().is_empty());
    assert_eq!(ed.cursor_row(), 0);
    assert_eq!(ed.cursor_col(), 0);
}

#[test]
fn load_splits_lines() {
    let mut ed = Editor::new(80, 24);
    ed.load("test.rs", "hello\nworld\nfoo");
    assert_eq!(ed.line_count(), 3);
    assert_eq!(ed.content(), "hello\nworld\nfoo");
    assert!(!ed.is_modified());
}

#[test]
fn insert_characters() {
    let mut ed = Editor::new(80, 24);
    ed.handle_key(DecodedKey::Unicode('H'));
    ed.handle_key(DecodedKey::Unicode('i'));
    assert_eq!(ed.content(), "Hi");
    assert!(ed.is_modified());
    assert_eq!(ed.cursor_col(), 2);
}

#[test]
fn enter_splits_line() {
    let mut ed = Editor::new(80, 24);
    ed.load("f.txt", "abcd");
    ed.move_cursor(0, 2);
    ed.handle_key(DecodedKey::Unicode('\n'));
    assert_eq!(ed.line_count(), 2);
    assert_eq!(ed.content(), "ab\ncd");
    assert_eq!(ed.cursor_row(), 1);
    assert_eq!(ed.cursor_col(), 0);
}

#[test]
fn backspace_deletes_char() {
    let mut ed = Editor::new(80, 24);
    ed.load("f.txt", "abc");
    ed.move_cursor(0, 3);
    ed.handle_key(DecodedKey::Unicode('\x08'));
    assert_eq!(ed.content(), "ab");
}

#[test]
fn backspace_joins_lines() {
    let mut ed = Editor::new(80, 24);
    ed.load("f.txt", "ab\ncd");
    ed.move_cursor(1, 0);
    ed.handle_key(DecodedKey::Unicode('\x08'));
    assert_eq!(ed.content(), "abcd");
    assert_eq!(ed.cursor_row(), 0);
    assert_eq!(ed.cursor_col(), 2);
}

#[test]
fn ctrl_s_returns_save() {
    let mut ed = Editor::new(80, 24);
    ed.load("myfile.rs", "code");
    let action = ed.handle_key(DecodedKey::Unicode('\x13'));
    assert_eq!(action, EditorAction::Save(String::from("myfile.rs")));
}

#[test]
fn ctrl_q_returns_quit() {
    let mut ed = Editor::new(80, 24);
    let action = ed.handle_key(DecodedKey::Unicode('\x11'));
    assert_eq!(action, EditorAction::Quit);
}

#[test]
fn ctrl_x_cuts_line() {
    let mut ed = Editor::new(80, 24);
    ed.load("f.txt", "aaa\nbbb\nccc");
    ed.move_cursor(1, 0);
    ed.handle_key(DecodedKey::Unicode('\x18'));
    assert_eq!(ed.content(), "aaa\nccc");
    assert_eq!(ed.cursor_row(), 1);
}

#[test]
fn arrow_keys_move_cursor() {
    let mut ed = Editor::new(80, 24);
    ed.load("f.txt", "hello\nworld");
    ed.handle_key(DecodedKey::RawKey(KeyCode::ArrowDown));
    assert_eq!(ed.cursor_row(), 1);
    ed.handle_key(DecodedKey::RawKey(KeyCode::ArrowRight));
    assert_eq!(ed.cursor_col(), 1);
    ed.handle_key(DecodedKey::RawKey(KeyCode::ArrowUp));
    assert_eq!(ed.cursor_row(), 0);
    assert_eq!(ed.cursor_col(), 1);
    ed.handle_key(DecodedKey::RawKey(KeyCode::ArrowLeft));
    assert_eq!(ed.cursor_col(), 0);
}

#[test]
fn render_produces_output() {
    let mut ed = Editor::new(80, 24);
    ed.load("test.txt", "line 1\nline 2");
    let rendered = ed.render();
    // Should contain ANSI escape sequences and the filename.
    assert!(rendered.contains("test.txt"));
    assert!(rendered.contains("Ln 1"));
}

#[test]
fn scroll_on_many_lines() {
    let mut ed = Editor::new(80, 10); // 8 text rows (10 - status - help)
    let mut content = String::new();
    for i in 0..20 {
        if i > 0 {
            content.push('\n');
        }
        content.push_str("line");
    }
    ed.load("big.txt", &content);

    // Move to the bottom.
    for _ in 0..19 {
        ed.handle_key(DecodedKey::RawKey(KeyCode::ArrowDown));
    }
    assert_eq!(ed.cursor_row(), 19);
    // scroll_offset should have adjusted.
    assert!(ed.scroll_offset() > 0);
}

// ── Further cases ─────────────────────────────────────────────────────────

#[test]
fn new_editor_is_untitled_and_renders_its_name() {
    let ed = Editor::new(80, 24);
    assert_eq!(ed.content(), "");
    assert!(!ed.is_modified());
    assert!(ed.render().contains("[untitled]"));
}

#[test]
fn load_of_empty_text_gives_one_empty_line() {
    let mut ed = Editor::new(80, 24);
    ed.load("e.txt", "");
    assert_eq!(ed.line_count(), 1);
    assert_eq!(text_of(&ed, 0), "");
    assert_eq!(ed.line(1), None);
}

#[test]
fn load_keeps_trailing_and_consecutive_newlines() {
    let mut ed = Editor::new(80, 24);
    ed.load("n.txt", "a\n\nb\n");
    assert_eq!(ed.line_count(), 4);
    assert_eq!(text_of(&ed, 0), "a");
    assert_eq!(text_of(&ed, 1), "");
    assert_eq!(text_of(&ed, 2), "b");
    assert_eq!(text_of(&ed, 3), "");
    // Round trip: the content is the loaded text.
    assert_eq!(ed.content(), "a\n\nb\n");
}

#[test]
fn load_resets_cursor_scroll_and_modified() {
    let mut ed = Editor::new(80, 5);
    ed.load("a.txt", "1\n2\n3\n4\n5\n6");
    for _ in 0..5 {
        ed.handle_key(DecodedKey::RawKey(KeyCode::ArrowDown));
    }
    ed.handle_key(DecodedKey::Unicode('x'));
    assert!(ed.is_modified());
    assert!(ed.scroll_offset() > 0);
    ed.load("b.txt", "z");
    assert_eq!(ed.cursor_row(), 0);
    assert_eq!(ed.cursor_col(), 0);
    assert_eq!(ed.scroll_offset(), 0);
    assert!(!ed.is_modified());
    assert_eq!(
        ed.handle_key(DecodedKey::Unicode('\x13')),
        EditorAction::Save(String::from("b.txt"))
    );
}

#[test]
fn unicode_characters_are_kept() {
    let mut ed = Editor::new(80, 24);
    ed.load("u.txt", "héllo\n日本");
    assert_eq!(ed.line_count(), 2);
    ed.move_cursor(1, 1);
    ed.handle_key(DecodedKey::Unicode('語'));
    assert_eq!(ed.content(), "héllo\n日語本");
    assert_eq!(ed.cursor_col(), 2);
}

#[test]
fn tab_inserts_four_spaces() {
    let mut ed = Editor::new(80, 24);
    ed.load("t.txt", "ab");
    ed.move_cursor(0, 1);
    ed.handle_key(DecodedKey::Unicode('\t'));
    assert_eq!(ed.content(), "a    b");
    assert_eq!(ed.cursor_col(), 5);
    assert!(ed.is_modified());
}

#[test]
fn carriage_return_splits_like_enter() {
    let mut ed = Editor::new(80, 24);
    ed.load("f.txt", "abcd");
    ed.move_cursor(0, 1);
    ed.handle_key(DecodedKey::Unicode('\r'));
    assert_eq!(ed.content(), "a\nbcd");
    assert_eq!(ed.cursor_row(), 1);
    assert_eq!(ed.cursor_col(), 0);
}

#[test]
fn enter_at_end_and_start_of_line() {
    let mut ed = Editor::new(80, 24);
    ed.load("f.txt", "ab");
    ed.handle_key(DecodedKey::RawKey(KeyCode::End));
    ed.handle_key(DecodedKey::Unicode('\n'));
    assert_eq!(ed.content(), "ab\n");
    ed.handle_key(DecodedKey::RawKey(KeyCode::ArrowUp));
    ed.handle_key(DecodedKey::RawKey(KeyCode::Home));
    ed.handle_key(DecodedKey::Unicode('\n'));
    assert_eq!(ed.content(), "\nab\n");
    assert_eq!(ed.cursor_row(), 1);
}

#[test]
fn del_character_is_a_backspace() {
    let mut ed = Editor::new(80, 24);
    ed.load("f.txt", "abc");
    ed.move_cursor(0, 2);
    ed.handle_key(DecodedKey::Unicode('\x7f'));
    assert_eq!(ed.content(), "ac");
    assert_eq!(ed.cursor_col(), 1);
}

#[test]
fn backspace_at_start_of_buffer_does_nothing() {
    let mut ed = Editor::new(80, 24);
    ed.load("f.txt", "abc");
    let action = ed.handle_key(DecodedKey::Unicode('\x08'));
    assert_eq!(action, EditorAction::Continue);
    assert_eq!(ed.content(), "abc");
    assert!(!ed.is_modified());
}

#[test]
fn enter_then_backspace_restores_text_and_cursor() {
    let mut ed = Editor::new(80, 24);
    ed.load("f.txt", "one\ntwo three\nfour");
    ed.move_cursor(1, 3);
    ed.handle_key(DecodedKey::Unicode('\n'));
    assert_eq!(ed.content(), "one\ntwo\n three\nfour");
    ed.handle_key(DecodedKey::Unicode('\x08'));
    assert_eq!(ed.content(), "one\ntwo three\nfour");
    assert_eq!(ed.cursor_row(), 1);
    assert_eq!(ed.cursor_col(), 3);
}

#[test]
fn typing_then_backspace_restores_text_and_cursor() {
    let mut ed = Editor::new(80, 24);
    ed.load("f.txt", "xy\nzw");
    ed.move_cursor(1, 1);
    ed.handle_key(DecodedKey::Unicode('Q'));
    assert_eq!(ed.content(), "xy\nzQw");
    ed.handle_key(DecodedKey::Unicode('\x08'));
    assert_eq!(ed.content(), "xy\nzw");
    assert_eq!(ed.cursor_row(), 1);
    assert_eq!(ed.cursor_col(), 1);
}

#[test]
fn delete_removes_char_and_joins_lines() {
    let mut ed = Editor::new(80, 24);
    ed.load("f.txt", "ab\ncd");
    ed.handle_key(DecodedKey::RawKey(KeyCode::Delete));
    assert_eq!(ed.content(), "b\ncd");
    assert_eq!(ed.cursor_col(), 0);
    ed.handle_key(DecodedKey::RawKey(KeyCode::End));
    ed.handle_key(DecodedKey::RawKey(KeyCode::Delete));
    assert_eq!(ed.content(), "bcd");
    assert_eq!(ed.cursor_row(), 0);
    assert_eq!(ed.cursor_col(), 1);
    // At the very end nothing happens.
    ed.handle_key(DecodedKey::RawKey(KeyCode::End));
    ed.handle_key(DecodedKey::RawKey(KeyCode::Delete));
    assert_eq!(ed.content(), "bcd");
}

#[test]
fn delete_at_end_of_unmodified_buffer_keeps_it_unmodified() {
    let mut ed = Editor::new(80, 24);
    ed.load("f.txt", "ab");
    ed.move_cursor(0, 2);
    ed.handle_key(DecodedKey::RawKey(KeyCode::Delete));
    assert!(!ed.is_modified());
}

#[test]
fn cut_last_line_moves_cursor_up() {
    let mut ed = Editor::new(80, 24);
    ed.load("f.txt", "aaa\nbb\nc");
    ed.move_cursor(2, 1);
    ed.handle_key(DecodedKey::Unicode('\x18'));
    assert_eq!(ed.content(), "aaa\nbb");
    assert_eq!(ed.cursor_row(), 1);
    assert_eq!(ed.cursor_col(), 1);
    assert!(ed.is_modified());
}

#[test]
fn cut_clamps_column_to_next_line() {
    let mut ed = Editor::new(80, 24);
    ed.load("f.txt", "long line\nx");
    ed.move_cursor(0, 8);
    ed.handle_key(DecodedKey::Unicode('\x18'));
    assert_eq!(ed.content(), "x");
    assert_eq!(ed.cursor_row(), 0);
    assert_eq!(ed.cursor_col(), 1);
}

#[test]
fn cut_only_line_empties_it() {
    let mut ed = Editor::new(80, 24);
    ed.load("f.txt", "solo");
    ed.move_cursor(0, 2);
    ed.handle_key(DecodedKey::Unicode('\x18'));
    assert_eq!(ed.line_count(), 1);
    assert_eq!(ed.content(), "");
    assert_eq!(ed.cursor_col(), 0);
    assert!(ed.is_modified());
}

#[test]
fn other_control_characters_are_ignored() {
    let mut ed = Editor::new(80, 24);
    ed.load("f.txt", "abc");
    for c in ['\x00', '\x01', '\x1b', '\x1f'] {
        assert_eq!(ed.handle_key(DecodedKey::Unicode(c)), EditorAction::Continue);
    }
    assert_eq!(ed.content(), "abc");
    assert!(!ed.is_modified());
}

#[test]
fn unhandled_raw_keys_are_ignored() {
    let mut ed = Editor::new(80, 24);
    ed.load("f.txt", "abc\ndef");
    ed.move_cursor(1, 2);
    for k in [KeyCode::F1, KeyCode::Escape, KeyCode::Insert, KeyCode::Tab] {
        assert_eq!(ed.handle_key(DecodedKey::RawKey(k)), EditorAction::Continue);
    }
    assert_eq!(ed.cursor_row(), 1);
    assert_eq!(ed.cursor_col(), 2);
    assert_eq!(ed.content(), "abc\ndef");
}

#[test]
fn arrows_wrap_across_line_ends() {
    let mut ed = Editor::new(80, 24);
    ed.load("f.txt", "ab\ncd");
    ed.move_cursor(0, 2);
    ed.handle_key(DecodedKey::RawKey(KeyCode::ArrowRight));
    assert_eq!((ed.cursor_row(), ed.cursor_col()), (1, 0));
    ed.handle_key(DecodedKey::RawKey(KeyCode::ArrowLeft));
    assert_eq!((ed.cursor_row(), ed.cursor_col()), (0, 2));
    // No movement past the buffer's ends.
    ed.move_cursor(0, 0);
    ed.handle_key(DecodedKey::RawKey(KeyCode::ArrowLeft));
    ed.handle_key(DecodedKey::RawKey(KeyCode::ArrowUp));
    assert_eq!((ed.cursor_row(), ed.cursor_col()), (0, 0));
    ed.move_cursor(1, 2);
    ed.handle_key(DecodedKey::RawKey(KeyCode::ArrowRight));
    ed.handle_key(DecodedKey::RawKey(KeyCode::ArrowDown));
    assert_eq!((ed.cursor_row(), ed.cursor_col()), (1, 2));
    assert!(!ed.is_modified());
}

#[test]
fn vertical_moves_clamp_the_column() {
    let mut ed = Editor::new(80, 24);
    ed.load("f.txt", "long line\nab\nanother long");
    ed.move_cursor(0, 7);
    ed.handle_key(DecodedKey::RawKey(KeyCode::ArrowDown));
    assert_eq!((ed.cursor_row(), ed.cursor_col()), (1, 2));
    ed.handle_key(DecodedKey::RawKey(KeyCode::ArrowDown));
    assert_eq!((ed.cursor_row(), ed.cursor_col()), (2, 2));
}

#[test]
fn home_and_end() {
    let mut ed = Editor::new(80, 24);
    ed.load("f.txt", "hello");
    ed.handle_key(DecodedKey::RawKey(KeyCode::End));
    assert_eq!(ed.cursor_col(), 5);
    ed.handle_key(DecodedKey::RawKey(KeyCode::Home));
    assert_eq!(ed.cursor_col(), 0);
}

#[test]
fn page_down_and_page_up() {
    let mut ed = Editor::new(80, 7); // 5 text rows
    let mut content = String::new();
    for i in 0..12 {
        if i > 0 {
            content.push('\n');
        }
        content.push_str("row");
    }
    ed.load("p.txt", &content);
    ed.handle_key(DecodedKey::RawKey(KeyCode::PageDown));
    assert_eq!(ed.cursor_row(), 5);
    assert_eq!(ed.scroll_offset(), 1);
    ed.handle_key(DecodedKey::RawKey(KeyCode::PageDown));
    assert_eq!(ed.cursor_row(), 10);
    ed.handle_key(DecodedKey::RawKey(KeyCode::PageDown));
    assert_eq!(ed.cursor_row(), 11);
    assert_eq!(ed.scroll_offset(), 7);
    ed.handle_key(DecodedKey::RawKey(KeyCode::PageUp));
    assert_eq!(ed.cursor_row(), 6);
    assert_eq!(ed.scroll_offset(), 6);
    ed.handle_key(DecodedKey::RawKey(KeyCode::PageUp));
    ed.handle_key(DecodedKey::RawKey(KeyCode::PageUp));
    assert_eq!(ed.cursor_row(), 0);
    assert_eq!(ed.scroll_offset(), 0);
}

#[test]
fn tiny_terminal_still_shows_one_row() {
    let mut ed = Editor::new(3, 1);
    ed.load("f.txt", "a\nb\nc");
    ed.handle_key(DecodedKey::RawKey(KeyCode::ArrowDown));
    assert_eq!(ed.cursor_row(), 1);
    assert_eq!(ed.scroll_offset(), 1);
    ed.handle_key(DecodedKey::RawKey(KeyCode::PageDown));
    assert_eq!(ed.cursor_row(), 2);
    assert_eq!(ed.scroll_offset(), 2);
}

#[test]
fn resize_scrolls_to_keep_cursor_visible() {
    let mut ed = Editor::new(80, 24);
    let mut content = String::new();
    for i in 0..30 {
        if i > 0 {
            content.push('\n');
        }
        content.push('x');
    }
    ed.load("r.txt", &content);
    ed.move_cursor(20, 0);
    assert_eq!(ed.scroll_offset(), 0);
    ed.resize(80, 10); // 8 text rows
    assert_eq!(ed.scroll_offset(), 13);
    assert_eq!(ed.cursor_row(), 20);
    ed.resize(80, 40);
    assert_eq!(ed.scroll_offset(), 13);
}

#[test]
fn move_cursor_pulls_back_into_the_buffer() {
    let mut ed = Editor::new(80, 24);
    ed.load("f.txt", "abc\nde");
    ed.move_cursor(7, 9);
    assert_eq!((ed.cursor_row(), ed.cursor_col()), (1, 2));
}

#[test]
fn handle_takes_editor_keys() {
    let mut ed = Editor::new(80, 24);
    ed.load("k.txt", "ab");
    ed.handle(EditorKey::RawKey(NavKey::End));
    ed.handle(EditorKey::Unicode('c'));
    ed.handle(EditorKey::RawKey(NavKey::Other));
    assert_eq!(ed.content(), "abc");
    assert_eq!(ed.handle(EditorKey::Unicode('\x11')), EditorAction::Quit);
}

#[test]
fn decoded_raw_keys_reach_the_right_handlers() {
    let mut ed = Editor::new(80, 24);
    ed.load("k.txt", "abc\ndef\nghi");
    ed.handle_key(DecodedKey::RawKey(KeyCode::ArrowDown));
    ed.handle_key(DecodedKey::RawKey(KeyCode::End));
    assert_eq!((ed.cursor_row(), ed.cursor_col()), (1, 3));
    ed.handle_key(DecodedKey::RawKey(KeyCode::Home));
    ed.handle_key(DecodedKey::RawKey(KeyCode::ArrowRight));
    assert_eq!((ed.cursor_row(), ed.cursor_col()), (1, 1));
    ed.handle_key(DecodedKey::RawKey(KeyCode::PageUp));
    assert_eq!(ed.cursor_row(), 0);
    ed.handle_key(DecodedKey::RawKey(KeyCode::PageDown));
    assert_eq!(ed.cursor_row(), 2);
    ed.handle_key(DecodedKey::RawKey(KeyCode::Delete));
    assert_eq!(ed.content(), "abc\ndef\ngi");
}

#[test]
fn save_hands_back_filename_and_clears_modified() {
    let mut ed = Editor::new(80, 24);
    ed.load("keep.txt", "ab");
    ed.handle_key(DecodedKey::Unicode('x'));
    assert!(ed.is_modified());
    assert!(ed.render().contains(" keep.txt [+]"));
    let action = ed.handle_key(DecodedKey::Unicode('\x13'));
    assert_eq!(action, EditorAction::Save(String::from("keep.txt")));
    assert!(!ed.is_modified());
    assert_eq!(ed.content(), "xab");
    assert_eq!((ed.cursor_row(), ed.cursor_col()), (0, 1));
    assert!(!ed.render().contains("[+]"));
    // A further edit marks it modified again.
    ed.handle_key(DecodedKey::Unicode('y'));
    assert!(ed.is_modified());
}

#[test]
fn save_of_new_editor_names_it_untitled() {
    let mut ed = Editor::new(80, 24);
    ed.handle_key(DecodedKey::Unicode('x'));
    let action = ed.handle_key(DecodedKey::Unicode('\x13'));
    assert_eq!(action, EditorAction::Save(String::from("[untitled]")));
    assert_eq!(ed.content(), "x");
    assert!(!ed.is_modified());
}

#[test]
fn content_round_trips_through_load() {
    let mut ed = Editor::new(80, 24);
    ed.load("f.txt", "a");
    ed.handle_key(DecodedKey::Unicode('\n'));
    ed.handle_key(DecodedKey::Unicode('b'));
    ed.handle_key(DecodedKey::Unicode('\t'));
    let saved = ed.content();
    let mut other = Editor::new(40, 10);
    other.load("f.txt", &saved);
    assert_eq!(other.line_count(), ed.line_count());
    for i in 0..ed.line_count() {
        assert_eq!(other.line(i), ed.line(i));
    }
    assert_eq!(other.content(), saved);
}

#[test]
fn render_exact_small_screen() {
    let mut ed = Editor::new(10, 4); // 2 text rows, 4 text columns
    ed.load("a", "xyz12\nq");
    let expected = String::new()
        + "\x1b[?25l\x1b[H"
        + "\x1b[1;1H\x1b[90m   1 \x1b[34m\u{2502}\x1b[0mxyz1\x1b[K"
        + "\x1b[2;1H\x1b[90m   2 \x1b[34m\u{2502}\x1b[0mq\x1b[K"
        + "\x1b[3;1H\x1b[7m aLn 1, Col 1 \x1b[0m"
        + "\x1b[4;1H\x1b[90m ^S Save  ^Q Quit  ^X Cut line\x1b[0m\x1b[K"
        + "\x1b[1;7H\x1b[?25h";
    assert_eq!(ed.render(), expected);
}

#[test]
fn render_tildes_past_end_and_modified_marker() {
    let mut ed = Editor::new(30, 5); // 3 text rows
    ed.load("é", "hi");
    ed.handle_key(DecodedKey::RawKey(KeyCode::End));
    ed.handle_key(DecodedKey::Unicode('!'));
    // Left " é [+]" is 7 bytes, right "Ln 1, Col 4 " is 12: 11 spaces fill 30.
    let expected = String::new()
        + "\x1b[?25l\x1b[H"
        + "\x1b[1;1H\x1b[90m   1 \x1b[34m\u{2502}\x1b[0mhi!\x1b[K"
        + "\x1b[2;1H\x1b[90m   ~ \x1b[34m\u{2502}\x1b[0m\x1b[K"
        + "\x1b[3;1H\x1b[90m   ~ \x1b[34m\u{2502}\x1b[0m\x1b[K"
        + "\x1b[4;1H\x1b[7m \u{e9} [+]"
        + "           "
        + "Ln 1, Col 4 \x1b[0m"
        + "\x1b[5;1H\x1b[90m ^S Save  ^Q Quit  ^X Cut line\x1b[0m\x1b[K"
        + "\x1b[1;10H\x1b[?25h";
    assert_eq!(ed.render(), expected);
}

#[test]
fn render_scrolled_view_numbers_lines_from_scroll() {
    let mut ed = Editor::new(20, 4); // 2 text rows
    ed.load("s", "l1\nl2\nl3\nl4");
    ed.move_cursor(3, 1);
    assert_eq!(ed.scroll_offset(), 2);
    let r = ed.render();
    assert!(r.contains("\x1b[1;1H\x1b[90m   3 \x1b[34m\u{2502}\x1b[0ml3\x1b[K"));
    assert!(r.contains("\x1b[2;1H\x1b[90m   4 \x1b[34m\u{2502}\x1b[0ml4\x1b[K"));
    assert!(r.contains("Ln 4, Col 2 "));
    assert!(r.ends_with("\x1b[2;8H\x1b[?25h"));
}

#[test]
fn render_pads_line_numbers_to_four_and_grows_past() {
    let mut ed = Editor::new(80, 24);
    let mut content = String::new();
    for i in 0..10001 {
        if i > 0 {
            content.push('\n');
        }
        content.push('w');
    }
    ed.load("big", &content);
    ed.move_cursor(10000, 0);
    let r = ed.render();
    assert!(r.contains("\x1b[90m9980 \x1b[34m"));
    assert!(r.contains("\x1b[90m10001 \x1b[34m"));
    assert!(r.contains("Ln 10001, Col 1 "));
}

#[test]
fn unicode_and_raw_handlers_directly() {
    let mut ed = Editor::new(80, 24);
    ed.load("d.txt", "abc\nde");
    assert_eq!(ed.handle_unicode('x'), EditorAction::Continue);
    assert_eq!(ed.content(), "xabc\nde");
    assert_eq!(ed.handle_raw_key(NavKey::ArrowDown), EditorAction::Continue);
    assert_eq!((ed.cursor_row(), ed.cursor_col()), (1, 1));
    assert_eq!(ed.handle_raw_key(NavKey::End), EditorAction::Continue);
    assert_eq!(ed.handle_raw_key(NavKey::ArrowRight), EditorAction::Continue);
    assert_eq!((ed.cursor_row(), ed.cursor_col()), (1, 2));
    assert_eq!(ed.handle_unicode('\x13'), EditorAction::Save(String::from("d.txt")));
    assert!(!ed.is_modified());
    assert_eq!(ed.handle_raw_key(NavKey::Other), EditorAction::Continue);
    assert_eq!(ed.content(), "xabc\nde");
}

#[test]
fn arrow_left_at_line_start_goes_to_previous_line_end() {
    let mut ed = Editor::new(80, 24);
    ed.load("f.txt", "abc\nd");
    ed.move_cursor(1, 0);
    ed.handle_key(DecodedKey::RawKey(KeyCode::ArrowLeft));
    assert_eq!((ed.cursor_row(), ed.cursor_col()), (0, 3));
    // Typing there lands at the end of the first line.
    ed.handle_key(DecodedKey::Unicode('!'));
    assert_eq!(ed.content(), "abc!\nd");
}
