use terminal_file_explorer::editor::buffer::{render_editor, EditorState as Buffer};
use terminal_file_explorer::editor::EditorState;

fn lines(v: &[&str]) -> Vec<String> {
    v.iter().map(|s| s.to_string()).collect()
}

fn opened(v: &[&str]) -> EditorState {
    let mut e = EditorState::new();
    e.open(lines(v), "/tmp/f.txt".to_string());
    e
}

#[test]
fn new_editor_is_closed_and_empty() {
    let e = EditorState::new();
    assert!(!e.active);
    assert!(e.content.is_empty());
    assert!(e.path.is_none());
    assert!(e.save_request().is_none());
}

#[test]
fn open_resets_cursor_and_history() {
    let e = opened(&["one", "two"]);
    assert!(e.active);
    assert_eq!(e.content, lines(&["one", "two"]));
    assert_eq!((e.cursor_line, e.cursor_col, e.scroll_offset), (0, 0, 0));
    assert!(!e.modified);
    assert!(e.undo_stack.is_empty() && e.redo_stack.is_empty());
}

#[test]
fn typing_then_undo_restores_text() {
    let mut e = opened(&["ab"]);
    e.cursor_col = 1;
    e.insert_char('X');
    assert_eq!(e.content, lines(&["aXb"]));
    assert_eq!(e.cursor_col, 2);
    assert!(e.modified);
    e.undo();
    assert_eq!(e.content, lines(&["ab"]));
    assert_eq!(e.redo_stack.len(), 1);
    e.redo();
    assert_eq!(e.content, lines(&["aXb"]));
    e.undo();
    e.undo();
    assert_eq!(e.content, lines(&["ab"]));
}

#[test]
fn backspace_undoes_typing() {
    let mut e = opened(&["hello"]);
    e.cursor_col = 5;
    e.insert_char('!');
    e.backspace();
    assert_eq!(e.content, lines(&["hello"]));
    assert_eq!(e.cursor_col, 5);
    let mut e = opened(&["h\u{e9}"]);
    e.cursor_col = 1;
    e.insert_char('\u{e9}');
    assert_eq!(e.content, lines(&["h\u{e9}\u{e9}"]));
    e.backspace();
    assert_eq!(e.content, lines(&["h\u{e9}"]));
    assert_eq!(e.cursor_col, 1);
}

#[test]
fn typing_past_the_last_line_adds_a_line() {
    let mut e = opened(&["a"]);
    e.cursor_line = 1;
    e.cursor_col = 0;
    e.insert_char('b');
    assert_eq!(e.content, lines(&["a", "b"]));
}

#[test]
fn tab_inserts_four_spaces() {
    let mut e = opened(&["x"]);
    e.insert_tab();
    assert_eq!(e.content, lines(&["    x"]));
    assert_eq!(e.cursor_col, 4);
}

#[test]
fn backspace_at_line_start_joins_lines() {
    let mut e = opened(&["ab", "cd"]);
    e.cursor_line = 1;
    e.cursor_col = 0;
    e.backspace();
    assert_eq!(e.content, lines(&["abcd"]));
    assert_eq!((e.cursor_line, e.cursor_col), (0, 2));
    e.cursor_line = 0;
    e.cursor_col = 0;
    let before = e.undo_stack.len();
    e.backspace();
    assert_eq!(e.content, lines(&["abcd"]));
    assert_eq!(e.undo_stack.len(), before);
}

#[test]
fn delete_removes_under_cursor_or_joins() {
    let mut e = opened(&["ab", "cd"]);
    e.delete_char();
    assert_eq!(e.content, lines(&["b", "cd"]));
    e.cursor_col = 1;
    e.delete_char();
    assert_eq!(e.content, lines(&["bcd"]));
    e.cursor_col = 3;
    e.delete_char();
    assert_eq!(e.content, lines(&["bcd"]));
}

#[test]
fn newline_splits_the_line() {
    let mut e = opened(&["abcd"]);
    e.cursor_col = 2;
    e.newline();
    assert_eq!(e.content, lines(&["ab", "cd"]));
    assert_eq!((e.cursor_line, e.cursor_col), (1, 0));
    e.undo();
    assert_eq!(e.content, lines(&["abcd"]));
}

#[test]
fn new_edit_clears_redo() {
    let mut e = opened(&["a"]);
    e.insert_char('b');
    e.undo();
    assert_eq!(e.redo_stack.len(), 1);
    e.insert_char('c');
    assert!(e.redo_stack.is_empty());
}

#[test]
fn undo_with_empty_history_does_nothing() {
    let mut e = opened(&["a"]);
    e.undo();
    e.redo();
    assert_eq!(e.content, lines(&["a"]));
    assert!(!e.modified);
}

#[test]
fn save_request_and_save() {
    let mut e = opened(&["a", "b"]);
    e.insert_char('x');
    let (path, text) = e.save_request().unwrap();
    assert_eq!(path, "/tmp/f.txt");
    assert_eq!(text, "xa\nb");
    assert!(!e.save(false));
    assert!(e.modified);
    assert!(e.save(true));
    assert!(!e.modified);
    e.close();
    assert!(!e.active);
    assert!(!e.save(true));
}

#[test]
fn buffer_splits_and_joins() {
    let b = Buffer::new("one\ntwo\r\n".to_string());
    assert_eq!(b.content, lines(&["one", "two"]));
    assert_eq!(b.to_string(), "one\ntwo");
    assert_eq!(Buffer::default().content.len(), 0);
}

#[test]
fn buffer_typing_clamps_the_cursor() {
    let mut b = Buffer::new("ab".to_string());
    b.cursor_col = 9;
    b.insert_char('c');
    assert_eq!(b.content, lines(&["abc"]));
    assert_eq!(b.cursor_col, 3);
    assert!(b.modified);
}

#[test]
fn buffer_newline_and_delete() {
    let mut b = Buffer::new("abcd".to_string());
    b.cursor_col = 2;
    b.insert_newline();
    assert_eq!(b.content, lines(&["ab", "cd"]));
    assert_eq!((b.cursor_line, b.cursor_col), (1, 0));
    b.delete_char();
    assert_eq!(b.content, lines(&["abcd"]));
    assert_eq!((b.cursor_line, b.cursor_col), (0, 2));
    b.delete_char();
    assert_eq!(b.content, lines(&["acd"]));
    assert_eq!(b.cursor_col, 1);
}

#[test]
fn buffer_cursor_moves() {
    let mut b = Buffer::new("abc\nx".to_string());
    b.move_to_end();
    assert_eq!(b.cursor_col, 3);
    b.move_down();
    assert_eq!((b.cursor_line, b.cursor_col), (1, 1));
    b.move_right();
    assert_eq!((b.cursor_line, b.cursor_col), (1, 1));
    b.move_left();
    b.move_left();
    assert_eq!((b.cursor_line, b.cursor_col), (0, 3));
    b.move_up();
    assert_eq!(b.cursor_line, 0);
    b.move_to_start();
    assert_eq!(b.cursor_col, 0);
    b.move_right();
    assert_eq!(b.cursor_col, 1);
}

#[test]
fn buffer_scroll_keeps_the_cursor_visible() {
    let mut b = Buffer::new("a\nb\nc\nd\ne".to_string());
    b.cursor_line = 4;
    b.update_scroll(2);
    assert_eq!(b.scroll_offset, 3);
    b.cursor_line = 1;
    b.update_scroll(2);
    assert_eq!(b.scroll_offset, 1);
}

#[test]
fn render_editor_draws_rows_cursor_and_tildes() {
    let mut b = Buffer::new("abcdef\nxy".to_string());
    b.cursor_line = 1;
    b.cursor_col = 1;
    let out = render_editor(&b, 6, 5);
    assert_eq!(out, "abcd< \nx|    \n~\n");
}

#[test]
fn undo_reverts_backspace_and_delete() {
    let mut e = opened(&["ab", "cd"]);
    e.cursor_line = 1;
    e.backspace();
    assert_eq!(e.content, lines(&["abcd"]));
    e.undo();
    assert_eq!(e.content, lines(&["ab", "cd"]));
    e.cursor_line = 0;
    e.cursor_col = 0;
    e.delete_char();
    assert_eq!(e.content, lines(&["b", "cd"]));
    e.undo();
    assert_eq!(e.content, lines(&["ab", "cd"]));
    assert_eq!(e.undo_stack.len(), 0);
    assert_eq!(e.redo_stack.len(), 1);
}

#[test]
fn backspace_right_after_newline_joins_the_halves() {
    let mut e = opened(&["héllo world", "next"]);
    e.cursor_col = 6;
    e.newline();
    assert_eq!(e.content, lines(&["héllo", " world", "next"]));
    e.backspace();
    assert_eq!(e.content, lines(&["héllo world", "next"]));
    assert_eq!((e.cursor_line, e.cursor_col), (0, 6));
}

#[test]
fn backspace_after_newline_at_line_end_restores_it() {
    let mut e = opened(&["ab"]);
    e.cursor_col = 2;
    e.newline();
    assert_eq!(e.content, lines(&["ab", ""]));
    e.backspace();
    assert_eq!(e.content, lines(&["ab"]));
    assert_eq!((e.cursor_line, e.cursor_col), (0, 2));
}

#[test]
fn buffer_to_string_gives_back_new() {
    for text in ["", "one", "one\ntwo", "a\n\nb", "\nx"] {
        assert_eq!(Buffer::new(text.to_string()).to_string(), text);
    }
}

#[test]
fn buffer_move_right_undoes_move_left() {
    let mut b = Buffer::new("abc\nxy".to_string());
    b.cursor_line = 1;
    b.cursor_col = 0;
    b.move_left();
    assert_eq!((b.cursor_line, b.cursor_col), (0, 3));
    b.move_right();
    assert_eq!((b.cursor_line, b.cursor_col), (1, 0));
    b.cursor_col = 2;
    b.move_left();
    b.move_right();
    assert_eq!((b.cursor_line, b.cursor_col), (1, 2));
    assert_eq!(b.content, lines(&["abc", "xy"]));
}

#[test]
fn each_edit_on_ascii_text_is_undone_and_redone() {
    let before = lines(&["abc", "de"]);
    for edit in 0..5 {
        let mut e = opened(&["abc", "de"]);
        e.cursor_col = if edit == 2 { 3 } else { 1 };
        match edit {
            0 => e.insert_char('x'),
            1 => e.insert_tab(),
            2 => e.delete_char(),
            3 => e.backspace(),
            _ => e.newline(),
        }
        let after = e.content.clone();
        assert_ne!(after, before);
        e.undo();
        assert_eq!(e.content, before);
        assert!(e.modified);
        e.redo();
        assert_eq!(e.content, after);
        e.redo();
        assert_eq!(e.content, after);
    }
}
