use terminal_file_explorer::command_palette::{CommandItem, CommandPaletteResult, CommandPaletteState, GrepFile, PaletteMode};
use terminal_file_explorer::state::FileEntry;
use terminal_file_explorer::keys::{KeyCode, KeyEvent};
use terminal_file_explorer::menu::{MenuAction, MenuBarState, MenuItem};

fn key(code: KeyCode) -> KeyEvent {
    KeyEvent { code, ctrl: false, alt: false }
}

fn ctrl(c: char) -> KeyEvent {
    KeyEvent { code: KeyCode::Char(c), ctrl: true, alt: false }
}

#[test]
fn menu_items() {
    let a = MenuItem::action("Open", "Ctrl+O", MenuAction::OpenEditor);
    assert_eq!(a.label, "Open");
    assert_eq!(a.shortcut, "Ctrl+O");
    assert_eq!(a.action, Some(MenuAction::OpenEditor));
    assert!(!a.separator);
    let s = MenuItem::separator();
    assert!(s.separator);
    assert_eq!(s.action, None);
}

#[test]
fn menu_bar_layout() {
    let m = MenuBarState::new();
    let names: Vec<&str> = m.menus.iter().map(|x| x.name.as_str()).collect();
    assert_eq!(names, vec!["File", "Edit", "View", "Help"]);
    assert!(!m.is_open());
    assert_eq!(m.menu_bar_column_offset(0), 0);
    assert_eq!(m.menu_bar_column_offset(1), 7);
    assert_eq!(m.menu_bar_column_offset(3), 21);
    assert_eq!(m.menu_bar_column_offset(9), 28);
    assert_eq!(m.title_at(0), Some(0));
    assert_eq!(m.title_at(5), Some(0));
    assert_eq!(m.title_at(6), None);
    assert_eq!(m.title_at(7), Some(1));
    assert_eq!(m.title_at(26), Some(3));
    assert_eq!(m.title_at(27), None);
}

#[test]
fn menu_keyboard_navigation() {
    let mut m = MenuBarState::new();
    m.open(0);
    assert_eq!((m.open_index, m.selected_item), (Some(0), Some(0)));
    m.move_up();
    assert_eq!(m.selected_item, Some(6));
    m.move_down();
    assert_eq!(m.selected_item, Some(0));
    m.move_down();
    assert_eq!(m.select_item(), Some(MenuAction::NewFolder));
    m.move_down();
    assert_eq!(m.select_item(), None);
    m.move_left();
    assert_eq!((m.open_index, m.selected_item), (Some(3), Some(0)));
    m.move_right();
    assert_eq!(m.open_index, Some(0));
    m.close();
    assert!(!m.is_open());
    m.move_right();
    assert_eq!(m.open_index, None);
}

#[test]
fn menu_keys() {
    let mut m = MenuBarState::new();
    m.open(2);
    assert_eq!(m.handle_key_event(key(KeyCode::Down)), None);
    assert_eq!(m.handle_key_event(key(KeyCode::Enter)), Some(MenuAction::TogglePreview));
    assert!(!m.is_open());
    m.open(1);
    assert_eq!(m.handle_key_event(key(KeyCode::Right)), None);
    assert_eq!(m.open_index, Some(2));
    assert_eq!(m.handle_key_event(ctrl('p')), Some(MenuAction::OpenCommandPalette));
    assert!(!m.is_open());
    m.open(0);
    assert_eq!(m.handle_key_event(key(KeyCode::F(10))), None);
    assert!(!m.is_open());
    m.open(0);
    assert_eq!(m.handle_key_event(key(KeyCode::Char('x'))), None);
    assert!(m.is_open());
    assert_eq!(m.handle_key_event(key(KeyCode::Esc)), None);
    assert!(!m.is_open());
}

#[test]
fn dropdown_clicks() {
    let mut m = MenuBarState::new();
    m.open(0);
    // The File dropdown is 22 columns wide: its widest row is 18.
    assert_eq!(m.handle_dropdown_click(1, 3), None);
    assert!(m.is_open());
    assert_eq!(m.handle_dropdown_click(4, 3), None);
    assert!(m.is_open());
    assert_eq!(m.handle_dropdown_click(2, 0), None);
    assert!(m.is_open());
    assert_eq!(m.handle_dropdown_click(2, 21), None);
    assert!(m.is_open());
    assert_eq!(m.handle_dropdown_click(3, 20), Some(MenuAction::NewFolder));
    assert!(!m.is_open());
    m.open(0);
    assert_eq!(m.handle_dropdown_click(2, 22), None);
    assert!(!m.is_open());
    m.open(3);
    assert_eq!(m.handle_dropdown_click(3, 22), Some(MenuAction::ShowAbout));
    assert_eq!(m.handle_dropdown_click(3, 22), None);
}

#[test]
fn command_items() {
    let c = CommandItem::new("Go Up", "View", "Alt", MenuAction::GoUp);
    assert_eq!(c.display(), "View: Go Up  [Alt]");
    let d = CommandItem::new("About", "Help", "", MenuAction::ShowAbout);
    assert_eq!(d.display(), "Help: About");
    assert!(c.matches_query("go up"));
    assert!(c.matches_query("VIEW"));
    assert!(c.matches_query(""));
    assert!(!c.matches_query("down"));
}

#[test]
fn palette_opens_with_everything_listed() {
    let mut p = CommandPaletteState::new();
    assert!(!p.active);
    assert_eq!(p.all_items.len(), 16);
    p.open();
    assert!(p.active);
    assert_eq!(p.filtered.len(), 16);
    assert_eq!(p.selected, 0);
    assert_eq!(p.select_item(), Some(MenuAction::NewFile));
    p.close();
    assert!(!p.active);
    assert_eq!(p.query, "");
}

#[test]
fn palette_filters_and_runs() {
    let mut p = CommandPaletteState::new();
    p.open();
    for c in "theme".chars() {
        assert_eq!(p.handle_key_event(key(KeyCode::Char(c))), CommandPaletteResult::Continue);
    }
    assert_eq!(p.query, "theme");
    assert_eq!(p.filtered.len(), 1);
    assert_eq!(p.handle_key_event(key(KeyCode::Enter)), CommandPaletteResult::Action(MenuAction::CycleTheme));
    assert!(!p.active);
}

#[test]
fn palette_backspace_widens_the_list() {
    let mut p = CommandPaletteState::new();
    p.open();
    p.handle_key_event(key(KeyCode::Char('z')));
    p.handle_key_event(key(KeyCode::Char('z')));
    assert!(p.filtered.is_empty());
    assert_eq!(p.selected, 0);
    assert_eq!(p.handle_key_event(key(KeyCode::Enter)), CommandPaletteResult::Close);
    p.open();
    p.handle_key_event(key(KeyCode::Char('q')));
    let narrowed = p.filtered.len();
    p.handle_key_event(key(KeyCode::Backspace));
    assert_eq!(p.query, "");
    assert!(p.filtered.len() > narrowed);
    assert_eq!(p.filtered.len(), 16);
}

#[test]
fn palette_highlight_moves_within_the_list() {
    let mut p = CommandPaletteState::new();
    p.open();
    p.move_up();
    assert_eq!(p.selected, 0);
    p.handle_key_event(key(KeyCode::Down));
    p.handle_key_event(key(KeyCode::Down));
    assert_eq!(p.selected, 2);
    p.handle_key_event(key(KeyCode::Up));
    assert_eq!(p.selected, 1);
    for _ in 0..30 {
        p.move_down();
    }
    assert_eq!(p.selected, 15);
    p.query = "about".to_string();
    p.update_query();
    assert_eq!(p.filtered.len(), 1);
    assert_eq!(p.selected, 0);
    assert_eq!(p.handle_key_event(key(KeyCode::Esc)), CommandPaletteResult::Close);
    assert!(!p.active);
}

#[test]
fn palette_ignores_ctrl_alt_characters() {
    let mut p = CommandPaletteState::new();
    p.open();
    let k = KeyEvent { code: KeyCode::Char('a'), ctrl: true, alt: true };
    assert_eq!(p.handle_key_event(k), CommandPaletteResult::Continue);
    assert_eq!(p.query, "");
}

#[test]
fn dropdown_widths() {
    let m = MenuBarState::new();
    assert_eq!(m.dropdown_width_of(0), 22);
    assert_eq!(m.dropdown_width_of(1), 23);
    assert_eq!(m.dropdown_width_of(2), 33);
    assert_eq!(m.dropdown_width_of(3), 19);
}

#[test]
fn hidden_files_command_shows_ctrl_h() {
    let p = CommandPaletteState::new();
    let item = p.all_items.iter().find(|i| i.action == MenuAction::ToggleHidden).unwrap();
    assert_eq!(item.shortcut, "Ctrl+H");
    assert!(item.display().ends_with("[Ctrl+H]"));
}

#[test]
fn file_search_lists_filters_and_jumps() {
    let entries = vec![
        FileEntry { name: "Cargo.toml".to_string(), path: "/p/Cargo.toml".to_string(), is_dir: false, size: 1, modified: None },
        FileEntry { name: "src".to_string(), path: "/p/src".to_string(), is_dir: true, size: 0, modified: None },
        FileEntry { name: "README.md".to_string(), path: "/p/README.md".to_string(), is_dir: false, size: 1, modified: None },
    ];
    let mut p = CommandPaletteState::new();
    p.open_files(&entries);
    assert!(p.active);
    assert_eq!(p.mode, PaletteMode::Files);
    assert_eq!(p.found.len(), 3);
    assert_eq!(p.found[1].display(), "src");
    p.handle_key_event(key(KeyCode::Char('R')));
    let names: Vec<&str> = p.found.iter().map(|r| r.label.as_str()).collect();
    assert_eq!(names, vec!["Cargo.toml", "src", "README.md"]);
    p.handle_key_event(key(KeyCode::Char('e')));
    let names: Vec<&str> = p.found.iter().map(|r| r.label.as_str()).collect();
    assert_eq!(names, vec!["README.md"]);
    assert_eq!(p.filtered.len(), 16);
    assert_eq!(
        p.handle_key_event(key(KeyCode::Enter)),
        CommandPaletteResult::Jump("/p/README.md".to_string(), false)
    );
    assert!(!p.active);
    p.open();
    assert_eq!(p.mode, PaletteMode::Actions);
    assert_eq!(p.filtered.len(), 16);
}

#[test]
fn bookmark_search_jumps_to_the_directory() {
    let mut p = CommandPaletteState::new();
    p.open_bookmarks(&vec!["/home/u/work".to_string(), "/srv/data".to_string()]);
    assert_eq!(p.mode, PaletteMode::Bookmarks);
    assert_eq!(p.found.len(), 2);
    p.handle_key_event(key(KeyCode::Down));
    assert_eq!(
        p.handle_key_event(key(KeyCode::Enter)),
        CommandPaletteResult::Jump("/srv/data".to_string(), true)
    );
}

#[test]
fn grep_lists_matching_lines_with_file_and_line() {
    let mut p = CommandPaletteState::new();
    p.open_grep();
    assert_eq!(p.mode, PaletteMode::Grep);
    assert!(p.found.is_empty());
    p.handle_key_event(key(KeyCode::Char('f')));
    p.handle_key_event(key(KeyCode::Char('N')));
    assert!(p.found.is_empty());
    let files = vec![
        GrepFile { name: "a.rs".to_string(), path: "/p/a.rs".to_string(), text: "fn main() {}\nlet x = 1;\n".to_string() },
        GrepFile { name: "b.txt".to_string(), path: "/p/b.txt".to_string(), text: "nothing\nFN here".to_string() },
    ];
    p.load_grep(&files);
    assert_eq!(p.results.len(), 4);
    let shown: Vec<String> = p.found.iter().map(|r| r.display()).collect();
    assert_eq!(shown, vec!["a.rs:1: fn main() {}".to_string(), "b.txt:2: FN here".to_string()]);
    p.handle_key_event(key(KeyCode::Down));
    assert_eq!(
        p.handle_key_event(key(KeyCode::Enter)),
        CommandPaletteResult::Jump("/p/b.txt".to_string(), false)
    );
    p.open_grep();
    assert!(p.found.is_empty());
}
