use terminal_file_explorer::command_palette::{GrepFile, PaletteMode};
use terminal_file_explorer::config::{theme_names, Config};
use terminal_file_explorer::dialog::{DialogState, DialogType};
use terminal_file_explorer::explorer::{App, Effect, MouseEvent, MouseKind};
use terminal_file_explorer::keys::{KeyCode, KeyEvent};
use terminal_file_explorer::menu::MenuAction;
use terminal_file_explorer::state::{FileEntry, SortOrder};

fn file(name: &str, size: u64) -> FileEntry {
    FileEntry { name: name.to_string(), path: format!("/home/u/{}", name), is_dir: false, size, modified: None }
}

fn dir(name: &str) -> FileEntry {
    FileEntry { name: name.to_string(), path: format!("/home/u/{}", name), is_dir: true, size: 0, modified: None }
}

fn app() -> App {
    let mut a = App::new("/home/u".to_string(), Config::default());
    a.state.load_dir(vec![dir("docs"), file("a.txt", 3), file("b.rs", 7)]);
    a
}

fn key(code: KeyCode) -> KeyEvent {
    KeyEvent { code, ctrl: false, alt: false }
}

fn ch(c: char) -> KeyEvent {
    key(KeyCode::Char(c))
}

fn ctrl(c: char) -> KeyEvent {
    KeyEvent { code: KeyCode::Char(c), ctrl: true, alt: false }
}

fn click(row: u16, column: u16) -> MouseEvent {
    MouseEvent { kind: MouseKind::Down, row, column }
}

fn is_load(e: &Effect) -> bool {
    matches!(e, Effect::LoadDir)
}

fn is_git(e: &Effect) -> bool {
    matches!(e, Effect::RefreshGit)
}

#[test]
fn new_app_takes_the_settings() {
    let mut c = Config::default();
    c.show_hidden = true;
    c.calculate_dir_size = true;
    let a = App::new("/x".to_string(), c);
    assert!(a.state.show_hidden);
    assert!(a.state.calculate_dir_size);
    assert_eq!(a.state.cwd, "/x");
    assert_eq!(a.dialog.dialog_type, DialogType::Inactive);
    assert!(!a.editor.active);
}

#[test]
fn arrows_move_within_the_rows() {
    let mut a = app();
    assert_eq!(a.state.selected, 0);
    a.handle_key_event(key(KeyCode::Up));
    assert_eq!(a.state.selected, 0);
    for _ in 0..5 {
        a.handle_key_event(key(KeyCode::Down));
    }
    assert_eq!(a.state.selected, 3);
    a.handle_key_event(key(KeyCode::Up));
    assert_eq!(a.state.selected, 2);
}

#[test]
fn enter_on_a_directory_goes_in_and_on_parent_goes_up() {
    let mut a = app();
    a.state.selected = 1;
    let fx = a.handle_key_event(key(KeyCode::Enter));
    assert_eq!(a.state.cwd, "/home/u/docs");
    assert_eq!(a.state.selected, 0);
    assert_eq!(fx.len(), 2);
    assert!(is_load(&fx[0]) && is_git(&fx[1]));
    let fx = a.handle_key_event(key(KeyCode::Enter));
    assert_eq!(a.state.cwd, "/home/u");
    assert!(is_load(&fx[0]));
    a.state.load_dir(vec![file("a.txt", 3)]);
    a.state.selected = 1;
    let fx = a.handle_key_event(key(KeyCode::Enter));
    assert_eq!(a.state.cwd, "/home/u");
    assert_eq!(fx.len(), 1);
    assert!(is_git(&fx[0]));
}

#[test]
fn left_backtab_and_backspace_go_to_the_parent() {
    for code in [KeyCode::Left, KeyCode::BackTab, KeyCode::Backspace] {
        let mut a = app();
        a.state.selected = 2;
        let fx = a.handle_key_event(key(code));
        assert_eq!(a.state.cwd, "/home");
        assert_eq!(a.state.selected, 0);
        assert_eq!(fx.len(), 2);
    }
    let mut a = App::new("/".to_string(), Config::default());
    let fx = a.handle_key_event(key(KeyCode::Left));
    assert_eq!(a.state.cwd, "/");
    assert_eq!(fx.len(), 1);
}

#[test]
fn space_marks_and_escape_clears() {
    let mut a = app();
    a.state.selected = 2;
    a.handle_key_event(ch(' '));
    a.state.selected = 3;
    a.handle_key_event(ch(' '));
    assert_eq!(a.state.selected_paths.len(), 2);
    a.state.selected = 2;
    a.handle_key_event(ch(' '));
    assert_eq!(a.state.selected_paths, vec!["/home/u/b.rs".to_string()]);
    a.handle_key_event(key(KeyCode::Esc));
    assert!(a.state.selected_paths.is_empty());
}

#[test]
fn escape_without_marks_clears_the_error() {
    let mut a = app();
    a.external_open_failed("no handler".to_string());
    assert_eq!(a.dialog.error, Some("Failed to open: no handler".to_string()));
    a.handle_key_event(key(KeyCode::Esc));
    assert_eq!(a.dialog.error, None);
}

#[test]
fn view_toggles() {
    let mut a = app();
    a.handle_key_event(key(KeyCode::Tab));
    assert!(a.state.preview_open);
    a.handle_key_event(key(KeyCode::Tab));
    assert!(!a.state.preview_open);
    let fx = a.handle_key_event(ctrl('h'));
    assert!(a.state.show_hidden && a.config.show_hidden);
    assert!(matches!(fx[0], Effect::SaveConfig) && is_load(&fx[1]));
    a.handle_key_event(ctrl('h'));
    assert!(!a.state.show_hidden && !a.config.show_hidden);
    a.handle_key_event(ctrl('i'));
    assert!(a.state.calculate_dir_size && a.config.calculate_dir_size);
    a.handle_key_event(ctrl('d'));
    assert!(a.state.show_git_diff);
    a.handle_key_event(ctrl('o'));
    assert_eq!(a.state.sort_order, SortOrder::Size);
    assert_eq!(a.state.entries[1].name, "b.rs");
    let fx = a.handle_key_event(ctrl('t'));
    assert!(matches!(fx[0], Effect::CycleTheme));
    let fx = a.handle_key_event(key(KeyCode::F(5)));
    assert!(is_load(&fx[0]) && is_git(&fx[1]));
}

#[test]
fn bookmark_toggles() {
    let mut a = app();
    let fx = a.handle_key_event(ctrl('b'));
    assert!(matches!(fx[0], Effect::SaveConfig));
    assert_eq!(a.config.bookmarks, vec!["/home/u".to_string()]);
    a.handle_key_event(ctrl('b'));
    assert!(a.config.bookmarks.is_empty());
    a.config.bookmarks = vec!["/home/u/".to_string(), "/tmp".to_string(), "/home//u".to_string()];
    a.toggle_bookmark();
    assert_eq!(a.config.bookmarks, vec!["/tmp".to_string()]);
}

#[test]
fn copy_cut_and_paste() {
    let mut a = app();
    a.state.selected = 2;
    a.handle_key_event(ctrl('c'));
    assert_eq!(a.clipboard, vec!["/home/u/a.txt".to_string()]);
    assert!(!a.clipboard_cut);
    let fx = a.handle_key_event(ctrl('v'));
    assert_eq!(fx.len(), 3);
    match &fx[0] {
        Effect::Paste(paths, cut) => {
            assert_eq!(paths, &vec!["/home/u/a.txt".to_string()]);
            assert!(!cut);
        },
        _ => panic!("expected a paste"),
    }
    assert_eq!(a.clipboard.len(), 1);
    a.state.selected = 3;
    a.handle_key_event(ch(' '));
    a.handle_key_event(ctrl('x'));
    assert!(a.clipboard_cut);
    assert_eq!(a.clipboard, vec!["/home/u/b.rs".to_string()]);
    let fx = a.handle_key_event(ctrl('v'));
    assert!(matches!(&fx[0], Effect::Paste(_, true)));
    assert!(a.clipboard.is_empty());
    assert!(a.handle_key_event(ctrl('v')).is_empty());
}

#[test]
fn new_file_dialog_flow() {
    let mut a = app();
    a.handle_key_event(ctrl('n'));
    assert_eq!(a.dialog.dialog_type, DialogType::NewFile);
    assert!(a.handle_key_event(key(KeyCode::Enter)).is_empty());
    for c in "notes.md".chars() {
        a.handle_key_event(ch(c));
    }
    a.handle_key_event(ch('x'));
    a.handle_key_event(key(KeyCode::Backspace));
    assert_eq!(a.dialog.input, "notes.md");
    let fx = a.handle_key_event(key(KeyCode::Enter));
    match &fx[0] {
        Effect::CreateFile(p) => assert_eq!(p, "/home/u/notes.md"),
        _ => panic!("expected a creation"),
    }
    let fx = a.dialog_result(Err("exists".to_string()));
    assert!(fx.is_empty());
    assert_eq!(a.dialog.error, Some("exists".to_string()));
    assert_eq!(a.dialog.dialog_type, DialogType::NewFile);
    let fx = a.dialog_result(Ok(()));
    assert_eq!(fx.len(), 2);
    assert_eq!(a.dialog.dialog_type, DialogType::Inactive);
}

#[test]
fn rename_dialog_starts_with_the_name() {
    let mut a = app();
    a.state.selected = 3;
    a.handle_key_event(ctrl('r'));
    assert_eq!(a.dialog.dialog_type, DialogType::Rename);
    assert_eq!(a.dialog.input, "b.rs");
    a.handle_key_event(key(KeyCode::Backspace));
    a.handle_key_event(key(KeyCode::Backspace));
    a.handle_key_event(ch('m'));
    a.handle_key_event(ch('d'));
    let fx = a.handle_key_event(key(KeyCode::Enter));
    match &fx[0] {
        Effect::RenamePath(from, to) => {
            assert_eq!(from, "/home/u/b.rs");
            assert_eq!(to, "/home/u/b.md");
        },
        _ => panic!("expected a rename"),
    }
    a.handle_key_event(key(KeyCode::Esc));
    assert_eq!(a.dialog.dialog_type, DialogType::Inactive);
}

#[test]
fn delete_dialog_confirms_with_y() {
    let mut a = app();
    a.state.selected = 2;
    a.handle_key_event(key(KeyCode::Delete));
    assert_eq!(a.dialog.dialog_type, DialogType::Delete);
    a.handle_key_event(ch('q'));
    assert_eq!(a.dialog.dialog_type, DialogType::Delete);
    let fx = a.handle_key_event(ch('y'));
    match &fx[0] {
        Effect::DeletePaths(p) => assert_eq!(p, &vec!["/home/u/a.txt".to_string()]),
        _ => panic!("expected a deletion"),
    }
    assert_eq!(a.dialog.dialog_type, DialogType::Inactive);
    a.handle_key_event(key(KeyCode::Delete));
    a.handle_key_event(ch('n'));
    assert_eq!(a.dialog.dialog_type, DialogType::Inactive);
}

#[test]
fn editor_round_trip() {
    let mut a = app();
    a.state.selected = 1;
    assert!(a.handle_key_event(ch('e')).is_empty());
    a.state.selected = 2;
    let fx = a.handle_key_event(ch('e'));
    match &fx[0] {
        Effect::ReadForEditor(p) => assert_eq!(p, "/home/u/a.txt"),
        _ => panic!("expected a read"),
    }
    a.editor_loaded("hi\nthere".to_string(), "/home/u/a.txt".to_string());
    assert!(a.editor.active);
    a.handle_key_event(key(KeyCode::End));
    a.handle_key_event(ch('!'));
    assert_eq!(a.editor.content[0], "hi!");
    a.handle_key_event(key(KeyCode::Down));
    assert_eq!((a.editor.cursor_line, a.editor.cursor_col), (1, 3));
    a.handle_key_event(key(KeyCode::Enter));
    assert_eq!(a.editor.content, vec!["hi!".to_string(), "the".to_string(), "re".to_string()]);
    a.handle_key_event(ctrl('z'));
    a.handle_key_event(ctrl('z'));
    assert_eq!(a.editor.content, vec!["hi".to_string(), "there".to_string()]);
    a.handle_key_event(ctrl('y'));
    let fx = a.handle_key_event(ctrl('s'));
    match &fx[0] {
        Effect::WriteEditor(p, t) => {
            assert_eq!(p, "/home/u/a.txt");
            assert_eq!(t, "hi!\nthere");
        },
        _ => panic!("expected a write"),
    }
    a.editor_saved(true);
    assert!(!a.editor.modified);
    a.handle_key_event(key(KeyCode::Esc));
    assert!(!a.editor.active);
}

#[test]
fn editor_arrows_wrap_between_lines() {
    let mut a = app();
    a.editor_loaded("ab\nc".to_string(), "/f".to_string());
    a.handle_key_event(key(KeyCode::Left));
    assert_eq!((a.editor.cursor_line, a.editor.cursor_col), (0, 0));
    a.handle_key_event(key(KeyCode::Right));
    a.handle_key_event(key(KeyCode::Right));
    a.handle_key_event(key(KeyCode::Right));
    assert_eq!((a.editor.cursor_line, a.editor.cursor_col), (1, 0));
    a.handle_key_event(key(KeyCode::Left));
    assert_eq!((a.editor.cursor_line, a.editor.cursor_col), (0, 2));
    a.handle_key_event(key(KeyCode::Home));
    assert_eq!(a.editor.cursor_col, 0);
    a.handle_key_event(ctrl('q'));
    assert!(!a.editor.active);
}

#[test]
fn help_windows_close_with_escape() {
    let mut a = app();
    a.execute_action(MenuAction::ShowAbout);
    assert!(a.show_about);
    a.handle_key_event(key(KeyCode::Down));
    assert!(a.show_about);
    assert_eq!(a.state.selected, 0);
    a.handle_key_event(key(KeyCode::Esc));
    assert!(!a.show_about);
    a.execute_action(MenuAction::ShowKeybindings);
    a.handle_key_event(key(KeyCode::Enter));
    assert!(!a.show_keybindings);
}

#[test]
fn menu_and_palette_run_actions() {
    let mut a = app();
    a.handle_key_event(key(KeyCode::F(10)));
    assert_eq!(a.menu_bar.open_index, Some(0));
    a.handle_key_event(key(KeyCode::Right));
    a.handle_key_event(key(KeyCode::Right));
    let fx = a.handle_key_event(key(KeyCode::Enter));
    assert_eq!(fx.len(), 2);
    assert!(a.state.show_hidden);
    assert_eq!(a.menu_bar.open_index, None);
    a.handle_key_event(ctrl('p'));
    assert!(a.command_palette.active);
    for c in "quit".chars() {
        a.handle_key_event(ch(c));
    }
    let fx = a.handle_key_event(key(KeyCode::Enter));
    assert!(matches!(fx[0], Effect::Quit));
    assert!(!a.command_palette.active);
}

#[test]
fn execute_action_variants() {
    let mut a = app();
    assert!(matches!(a.execute_action(MenuAction::Quit)[0], Effect::Quit));
    a.execute_action(MenuAction::NewFolder);
    assert_eq!(a.dialog.dialog_type, DialogType::NewFolder);
    a.cancel_dialog();
    a.state.selected = 9;
    a.execute_action(MenuAction::Delete);
    assert_eq!(a.dialog.dialog_type, DialogType::Inactive);
    a.execute_action(MenuAction::Rename);
    assert_eq!(a.dialog.dialog_type, DialogType::Inactive);
    a.state.selected = 1;
    let fx = a.execute_action(MenuAction::GoUp);
    assert_eq!(a.state.cwd, "/home");
    assert_eq!(fx.len(), 2);
    a.execute_action(MenuAction::Undo);
    assert!(!a.editor.active);
    a.execute_action(MenuAction::OpenCommandPalette);
    assert!(a.command_palette.active);
}

#[test]
fn mouse_clicks_and_scrolling() {
    let mut a = app();
    a.handle_mouse_event(click(7, 3));
    assert_eq!(a.state.selected, 2);
    a.handle_mouse_event(click(5, 3));
    assert_eq!(a.state.selected, 0);
    a.handle_mouse_event(click(9, 3));
    assert_eq!(a.state.selected, 0);
    a.handle_mouse_event(MouseEvent { kind: MouseKind::ScrollDown, row: 0, column: 0 });
    assert_eq!(a.state.selected, 1);
    a.handle_mouse_event(MouseEvent { kind: MouseKind::ScrollUp, row: 0, column: 0 });
    a.handle_mouse_event(MouseEvent { kind: MouseKind::ScrollUp, row: 0, column: 0 });
    assert_eq!(a.state.selected, 0);
}

#[test]
fn mouse_opens_menus_and_clicks_items() {
    let mut a = app();
    a.handle_mouse_event(click(0, 8));
    assert_eq!(a.menu_bar.open_index, Some(1));
    a.handle_mouse_event(click(0, 8));
    assert_eq!(a.menu_bar.open_index, None);
    a.handle_mouse_event(click(0, 0));
    assert_eq!(a.menu_bar.open_index, Some(0));
    let fx = a.handle_mouse_event(click(7, 5));
    assert!(fx.is_empty());
    assert!(matches!(a.menu_bar.open_index, None));
    assert_eq!(a.dialog.dialog_type, DialogType::Inactive);
    a.handle_mouse_event(click(0, 0));
    let fx = a.handle_mouse_event(click(8, 3));
    assert!(matches!(fx[0], Effect::Quit));
    a.handle_mouse_event(click(0, 0));
    a.handle_mouse_event(click(2, 3));
    assert_eq!(a.dialog.dialog_type, DialogType::NewFile);
    a.handle_mouse_event(click(0, 50));
    assert_eq!(a.menu_bar.open_index, None);
}

#[test]
fn dialog_state_show_and_dismiss() {
    let mut d = DialogState::default();
    d.input = "x".to_string();
    d.error = Some("e".to_string());
    d.show(DialogType::Rename);
    assert_eq!(d.dialog_type, DialogType::Rename);
    assert_eq!(d.input, "");
    assert_eq!(d.error, None);
    d.input = "y".to_string();
    d.dismiss();
    assert_eq!(d.dialog_type, DialogType::Inactive);
    assert_eq!(d.input, "");
}

#[test]
fn search_keys_open_the_palette_in_their_mode() {
    for (c, mode) in [('f', PaletteMode::Files), ('g', PaletteMode::Grep), ('j', PaletteMode::Bookmarks), ('p', PaletteMode::Actions)] {
        let mut a = app();
        let fx = a.handle_key_event(ctrl(c));
        if c == 'g' {
            assert!(matches!(fx.as_slice(), [Effect::ReadForGrep]));
        } else {
            assert!(fx.is_empty());
        }
        assert!(a.command_palette.active);
        assert_eq!(a.command_palette.mode, mode);
    }
}

#[test]
fn file_search_selects_the_file_in_the_listing() {
    let mut a = app();
    a.handle_key_event(ctrl('f'));
    assert_eq!(a.command_palette.found.len(), 3);
    a.handle_key_event(ch('b'));
    a.handle_key_event(ch('.'));
    assert_eq!(a.command_palette.found.len(), 1);
    let fx = a.handle_key_event(key(KeyCode::Enter));
    assert!(fx.is_empty());
    assert!(!a.command_palette.active);
    assert_eq!(a.state.selected_entry().map(|e| e.name.clone()), Some("b.rs".to_string()));
    assert_eq!(a.state.cwd, "/home/u");
}

#[test]
fn file_search_enters_a_directory() {
    let mut a = app();
    a.handle_key_event(ctrl('f'));
    a.handle_key_event(ch('d'));
    a.handle_key_event(ch('o'));
    let fx = a.handle_key_event(key(KeyCode::Enter));
    assert_eq!(a.state.cwd, "/home/u/docs");
    assert!(matches!(fx.as_slice(), [Effect::LoadDir, Effect::RefreshGit]));
}

#[test]
fn bookmark_search_enters_the_bookmark() {
    let mut a = app();
    a.config.bookmarks = vec!["/srv".to_string(), "/home/u/docs".to_string()];
    a.handle_key_event(ctrl('j'));
    assert_eq!(a.command_palette.found.len(), 2);
    a.handle_key_event(key(KeyCode::Down));
    let fx = a.handle_key_event(key(KeyCode::Enter));
    assert_eq!(a.state.cwd, "/home/u/docs");
    assert!(matches!(fx.as_slice(), [Effect::LoadDir, Effect::RefreshGit]));
}

#[test]
fn grep_finds_lines_and_selects_their_file() {
    let mut a = app();
    a.handle_key_event(ctrl('g'));
    for c in "two".chars() {
        a.handle_key_event(ch(c));
    }
    assert!(a.command_palette.found.is_empty());
    a.grep_loaded(vec![
        GrepFile { name: "a.txt".to_string(), path: "/home/u/a.txt".to_string(), text: "one".to_string() },
        GrepFile { name: "b.rs".to_string(), path: "/home/u/b.rs".to_string(), text: "one\nTwo\nthree".to_string() },
    ]);
    assert_eq!(a.command_palette.found.len(), 1);
    assert_eq!(a.command_palette.found[0].detail, "b.rs:2");
    a.handle_key_event(key(KeyCode::Enter));
    assert_eq!(a.state.selected_entry().map(|e| e.name.clone()), Some("b.rs".to_string()));
}

#[test]
fn grep_results_after_closing_change_nothing() {
    let mut a = app();
    a.handle_key_event(ctrl('g'));
    a.handle_key_event(key(KeyCode::Esc));
    a.grep_loaded(vec![GrepFile { name: "a.txt".to_string(), path: "/home/u/a.txt".to_string(), text: "x".to_string() }]);
    assert!(a.command_palette.results.is_empty());
}

#[test]
fn cycling_the_theme_records_it_in_the_settings() {
    let names = theme_names();
    assert_eq!(names.len(), 8);
    let mut a = app();
    let mut current = a.config.theme.clone();
    assert_eq!(current, "tokyo-night");
    for _ in 0..names.len() {
        let fx = a.theme_cycled(&current);
        assert!(matches!(fx.as_slice(), [Effect::SaveConfig]));
        assert_ne!(a.config.theme, current);
        current = a.config.theme.clone();
    }
    assert_eq!(current, "tokyo-night");
    let mut b = app();
    let before = b.config.theme.clone();
    assert!(b.theme_cycled("no-such-theme").is_empty());
    assert_eq!(b.config.theme, before);
    a.theme_cycled("nord");
    assert_eq!(a.config.theme, "solarized-dark");
}
