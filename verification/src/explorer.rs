//! The explorer as a whole: how a key press or a mouse event changes the
//! listing, the editor, the dialog, the menus and the palette, and which
//! file-system, git or configuration work it asks the caller to do.
use vstd::prelude::*;
use crate::command_palette::{
    CommandItem, CommandPaletteResult, CommandPaletteState, GrepFile, PaletteMode, bookmark_results,
    clamp_row, default_commands, file_results, grep_results, item_fields, palette_stepped, results_for,
    searches_view,
};
use crate::config::{theme_after, theme_name_list, theme_names, next_theme, Config};
use crate::dialog::{DialogState, DialogType};
use crate::editor::EditorState;
use crate::git::GitStatus;
use crate::keys::{KeyCode, KeyEvent};
use crate::menu::{
    MenuAction, MenuBarState, default_menus, lemma_fits_can_click, lemma_fits_can_handle_key, lemma_title_hit_range,
    menus_fit, menus_view, title_hit,
};
use crate::paths::{components_of, has_parent, joined, parent_of, path_join, same_path};
use crate::state::{AppState, SortOrder, path_selected, selection_toggled, stably_sorted};
use crate::text::{chars_of, push_all, split_lines, string_from_chars, text_lines};

verus! {

/// Work the caller does for the explorer, in order.
#[derive(Debug, Clone)]
pub enum Effect {
    /// Read the listing of `state.cwd` and hand it to `AppState::load_dir`.
    LoadDir,
    /// Ask git about `state.cwd` again and store the answer in `git_status`.
    RefreshGit,
    /// Write `config` to the configuration file.
    SaveConfig,
    /// Hand the name of the theme in use to `theme_cycled`, then draw in the
    /// theme that `config.theme` names.
    CycleTheme,
    /// Read the plain files of the listing and hand their names, paths and
    /// texts to `grep_loaded` (files that cannot be read are left out).
    ReadForGrep,
    /// Read the file and, when that works, hand its text to `editor_loaded`.
    ReadForEditor(String),
    /// Write the text to the file and report with `editor_saved`.
    WriteEditor(String, String),
    /// Create an empty file and report with `dialog_result`.
    CreateFile(String),
    /// Create a directory and report with `dialog_result`.
    CreateFolder(String),
    /// Rename the first path to the second and report with `dialog_result`.
    RenamePath(String, String),
    /// Delete each path (a file, or an empty directory); failures are ignored.
    DeletePaths(Vec<String>),
    /// Put each path into `state.cwd` under its own file name: moved when the
    /// flag is set, else copied (files only); failures are ignored.
    Paste(Vec<String>, bool),
    /// Open the path with the system's default application; report a failure
    /// with `external_open_failed`.
    OpenExternal(String),
    /// Leave the program.
    Quit,
}

/// What a mouse event is.
#[derive(Debug, Clone, Copy, PartialEq, Eq, Structural)]
pub enum MouseKind {
    /// A button was pressed.
    Down,
    ScrollUp,
    ScrollDown,
    /// Anything else (release, drag, move).
    Other,
}

/// A mouse event at a screen cell.
#[derive(Debug, Clone, Copy, PartialEq, Eq, Structural)]
pub struct MouseEvent {
    pub kind: MouseKind,
    pub row: u16,
    pub column: u16,
}

/// Everything the explorer keeps between events.
#[derive(Debug, Clone)]
pub struct App {
    pub state: AppState,
    pub config: Config,
    pub dialog: DialogState,
    pub editor: EditorState,
    pub git_status: Option<GitStatus>,
    pub menu_bar: MenuBarState,
    pub command_palette: CommandPaletteState,
    pub show_about: bool,
    pub show_keybindings: bool,
    pub clipboard: Vec<String>,
    pub clipboard_cut: bool,
}

/// Keeps the paths that differ from the path with components `key`.
pub open spec fn other_path(key: Seq<Seq<char>>) -> spec_fn(String) -> bool {
    |p: String| components_of(p@) != key
}

/// What confirming the dialog does (see `App::confirm_dialog`).
pub open spec fn dialog_confirmed(old: App, new: App, fx: Seq<Effect>) -> bool {
    let d = old.dialog;
    let s = old.state;
    let target = joined(s.cwd@, d.input@);
    match d.dialog_type {
        DialogType::Delete => delete_confirmed(old, new, fx),
        DialogType::NewFile => {
            &&& new == old
            &&& if d.input@.len() == 0 {
                fx.len() == 0
            } else {
                fx.len() == 1 && (fx[0] matches Effect::CreateFile(p) && p@ == target)
            }
        },
        DialogType::NewFolder => {
            &&& new == old
            &&& if d.input@.len() == 0 {
                fx.len() == 0
            } else {
                fx.len() == 1 && (fx[0] matches Effect::CreateFolder(p) && p@ == target)
            }
        },
        DialogType::Rename => {
            &&& new == old
            &&& if d.input@.len() == 0 || !(0 <= s.entry_index() < s.entries@.len()) {
                fx.len() == 0
            } else {
                fx.len() == 1 && (fx[0] matches Effect::RenamePath(from, to) && from@
                    == s.entries@[s.entry_index()].path@ && to@ == target)
            }
        },
        DialogType::Inactive => new == old && fx.len() == 0,
    }
}

/// Byte length of line `i` of the editor text, 0 past the end.
pub open spec fn line_len(v: crate::editor::EditorView, i: int) -> int {
    crate::text::utf8_len(crate::editor::line_or_empty(v.lines, i)) as int
}

/// The editor after a key press (Ctrl+S leaves it as it is; the save goes
/// through `Effect::WriteEditor`). The arrows move by line and byte, keeping
/// the column within the line and the cursor line within 20 rows of the
/// scroll position going down; Home and End go to the line's ends.
pub open spec fn editor_after_key(v: crate::editor::EditorView, key: KeyEvent) -> crate::editor::EditorView {
    let cl = v.cursor_line;
    let col = v.cursor_col;
    match key.code {
        KeyCode::Up => {
            let (cl2, col2) = if cl > 0 {
                (cl - 1, if col > line_len(v, cl - 1) { line_len(v, cl - 1) } else { col })
            } else {
                (cl, col)
            };
            crate::editor::EditorView {
                cursor_line: cl2,
                cursor_col: col2,
                scroll_offset: if cl2 < v.scroll_offset { cl2 } else { v.scroll_offset },
                ..v
            }
        },
        KeyCode::Down => {
            let (cl2, col2) = if cl + 1 < v.lines.len() {
                (cl + 1, if col > line_len(v, cl + 1) { line_len(v, cl + 1) } else { col })
            } else {
                (cl, col)
            };
            crate::editor::EditorView {
                cursor_line: cl2,
                cursor_col: col2,
                scroll_offset: if cl2 >= v.scroll_offset + 20 { cl2 - 19 } else { v.scroll_offset },
                ..v
            }
        },
        KeyCode::Left => if col > 0 {
            crate::editor::EditorView { cursor_col: col - 1, ..v }
        } else if cl > 0 {
            crate::editor::EditorView { cursor_line: cl - 1, cursor_col: line_len(v, cl - 1), ..v }
        } else {
            v
        },
        KeyCode::Right => if col < line_len(v, cl) {
            crate::editor::EditorView { cursor_col: col + 1, ..v }
        } else if cl < v.lines.len() - 1 {
            crate::editor::EditorView { cursor_line: cl + 1, cursor_col: 0, ..v }
        } else {
            v
        },
        KeyCode::Home => crate::editor::EditorView { cursor_col: 0, ..v },
        KeyCode::End => crate::editor::EditorView { cursor_col: line_len(v, cl), ..v },
        KeyCode::Char(c) => if !key.ctrl {
            v.inserted(seq![c], 1)
        } else if c == 'q' {
            closed_editor()
        } else if c == 'z' {
            v.undone()
        } else if c == 'y' {
            v.redone()
        } else {
            v
        },
        KeyCode::Backspace => v.backspaced(),
        KeyCode::Enter => v.line_broken(),
        KeyCode::Esc => closed_editor(),
        _ => v,
    }
}

/// The editor with nothing open.
pub open spec fn closed_editor() -> crate::editor::EditorView {
    crate::editor::EditorView {
        lines: Seq::empty(),
        path: None,
        modified: false,
        active: false,
        cursor_line: 0,
        cursor_col: 0,
        scroll_offset: 0,
        undo: Seq::empty(),
        redo: Seq::empty(),
    }
}

/// The key can be handled in the editor without a panic.
pub open spec fn editor_key_ok(v: crate::editor::EditorView, key: KeyEvent) -> bool {
    let cl = v.cursor_line;
    let col = v.cursor_col;
    match key.code {
        KeyCode::Up => cl > 0 && cl - 1 >= v.lines.len() ==> col == 0,
        KeyCode::Down => v.scroll_offset + 20 <= usize::MAX,
        KeyCode::Left => col == 0 && cl > 0 ==> cl - 1 < v.lines.len(),
        KeyCode::Right => col >= line_len(v, cl) ==> v.lines.len() > 0,
        KeyCode::Char(c) => !key.ctrl ==> v.can_insert(1),
        KeyCode::Backspace => v.can_backspace(),
        KeyCode::Enter => v.can_break_line(),
        _ => true,
    }
}

/// The last row the cursor can reach: the entries plus the `..` row.
pub open spec fn last_row(s: AppState) -> int {
    if s.has_parent_row() {
        s.entries@.len() as int
    } else if s.entries@.len() > 0 {
        s.entries@.len() - 1
    } else {
        0
    }
}

/// The paths a copy, cut or deletion works on: the marked paths, or else the
/// entry under the cursor.
pub open spec fn target_paths(s: AppState) -> Seq<Seq<char>> {
    if s.selected_paths@.len() > 0 {
        s.selected_paths.deep_view()
    } else if 0 <= s.entry_index() < s.entries@.len() {
        seq![s.entries@[s.entry_index()].path@]
    } else {
        Seq::empty()
    }
}

/// The dialog closed, with its input and error cleared; nothing else changes.
pub open spec fn dialog_closed(old: App, new: App) -> bool {
    &&& new.dialog.dialog_type == DialogType::Inactive
    &&& new.dialog.input@.len() == 0
    &&& new.dialog.error is None
    &&& new == (App { dialog: new.dialog, ..old })
}

/// The dialog of type `t` shown with an empty input and no error; nothing
/// else changes.
pub open spec fn dialog_shown(old: App, new: App, t: DialogType) -> bool {
    &&& new.dialog.dialog_type == t
    &&& new.dialog.input@.len() == 0
    &&& new.dialog.error is None
    &&& new == (App { dialog: new.dialog, ..old })
}

/// The rename dialog shown for the entry under the cursor, with its name as
/// the input; without an entry nothing changes.
pub open spec fn rename_started(old: App, new: App) -> bool {
    let s = old.state;
    if 0 <= s.entry_index() < s.entries@.len() {
        &&& new.dialog.dialog_type == DialogType::Rename
        &&& new.dialog.input@ == s.entries@[s.entry_index()].name@
        &&& new.dialog.error is None
        &&& new == (App { dialog: new.dialog, ..old })
    } else {
        new == old
    }
}

/// The deletion of the marked paths (or else the entry under the cursor) is
/// asked for, with a new listing; everything is unmarked and the dialog
/// closed.
pub open spec fn delete_confirmed(old: App, new: App, fx: Seq<Effect>) -> bool {
    &&& fx.len() == 3
    &&& fx[0] matches Effect::DeletePaths(paths) && paths.deep_view() == target_paths(old.state)
    &&& fx[1] == Effect::LoadDir
    &&& fx[2] == Effect::RefreshGit
    &&& new.state.selected_paths@.len() == 0
    &&& new.state == (AppState { selected_paths: new.state.selected_paths, ..old.state })
    &&& new.dialog.dialog_type == DialogType::Inactive
    &&& new.dialog.input@.len() == 0
    &&& new.dialog.error is None
    &&& new == (App { state: new.state, dialog: new.dialog, ..old })
}

/// The current directory bookmarked, or every bookmark equal to it (as a
/// path) removed when there is one; nothing else changes.
pub open spec fn bookmark_toggled(old: App, new: App) -> bool {
    let key = components_of(old.state.cwd@);
    let before = old.config.bookmarks@;
    let after = new.config.bookmarks@;
    &&& new == (App { config: Config { bookmarks: new.config.bookmarks, ..old.config }, ..old })
    &&& if exists|i: int| 0 <= i < before.len() && components_of(#[trigger] before[i]@) == key {
        after == before.filter(other_path(key))
    } else {
        after == before.push(after.last()) && after.last()@ == old.state.cwd@
    }
}

/// The marked paths (or else the entry under the cursor) on the clipboard,
/// to be moved when `cut` is set; nothing else changes.
pub open spec fn put_on_clipboard(old: App, new: App, cut: bool) -> bool {
    &&& new.clipboard.deep_view() == target_paths(old.state)
    &&& new == (App { clipboard: new.clipboard, clipboard_cut: cut, ..old })
}

/// The clipboard pasted into the current directory and the listing read
/// again; a cut clipboard is emptied. With an empty clipboard nothing happens.
pub open spec fn pasted(old: App, new: App, fx: Seq<Effect>) -> bool {
    if old.clipboard@.len() == 0 {
        new == old && fx.len() == 0
    } else {
        &&& fx.len() == 3
        &&& fx[0] matches Effect::Paste(paths, cut) && paths.deep_view() == old.clipboard.deep_view()
            && cut == old.clipboard_cut
        &&& fx[1] == Effect::LoadDir
        &&& fx[2] == Effect::RefreshGit
        &&& if old.clipboard_cut {
            new == (App { clipboard: new.clipboard, ..old }) && new.clipboard@.len() == 0
        } else {
            new == old
        }
    }
}

/// The file under the cursor is to be read into the editor (nothing for a
/// directory or without an entry).
pub open spec fn read_requested(s: AppState, fx: Seq<Effect>) -> bool {
    if 0 <= s.entry_index() < s.entries@.len() && !s.entries@[s.entry_index()].is_dir {
        &&& fx.len() == 1
        &&& fx[0] matches Effect::ReadForEditor(p) && p@ == s.entries@[s.entry_index()].path@
    } else {
        fx.len() == 0
    }
}

/// The entry under the cursor is to be opened with the default application.
pub open spec fn external_requested(s: AppState, fx: Seq<Effect>) -> bool {
    if 0 <= s.entry_index() < s.entries@.len() {
        &&& fx.len() == 1
        &&& fx[0] matches Effect::OpenExternal(p) && p@ == s.entries@[s.entry_index()].path@
    } else {
        fx.len() == 0
    }
}

/// The editor's text is to be written to its file, when one is open.
pub open spec fn save_requested(e: EditorState, fx: Seq<Effect>) -> bool {
    match e.path {
        Some(p) => {
            &&& fx.len() == 1
            &&& fx[0] matches Effect::WriteEditor(q, t) && q@ == p@ && t@ == crate::text::join_lines(e@.lines)
        },
        None => fx.len() == 0,
    }
}

/// What a key does while the dialog is shown (see `App::handle_dialog_key`).
pub open spec fn dialog_key_applied(old: App, new: App, key: KeyEvent, fx: Seq<Effect>) -> bool {
    let d = old.dialog;
    match key.code {
        KeyCode::Char(c) => if d.dialog_type == DialogType::Delete {
            if c == 'y' {
                delete_confirmed(old, new, fx)
            } else if c == 'n' {
                dialog_closed(old, new) && fx.len() == 0
            } else {
                new == old && fx.len() == 0
            }
        } else {
            &&& fx.len() == 0
            &&& new.dialog.input@ == d.input@.push(c)
            &&& new.dialog.dialog_type == d.dialog_type
            &&& new.dialog.error == d.error
            &&& new == (App { dialog: new.dialog, ..old })
        },
        KeyCode::Backspace => if d.dialog_type != DialogType::Delete {
            &&& fx.len() == 0
            &&& new.dialog.input@ == (if d.input@.len() > 0 {
                d.input@.drop_last()
            } else {
                d.input@
            })
            &&& new.dialog.dialog_type == d.dialog_type
            &&& new.dialog.error == d.error
            &&& new == (App { dialog: new.dialog, ..old })
        } else {
            new == old && fx.len() == 0
        },
        KeyCode::Enter => dialog_confirmed(old, new, fx),
        KeyCode::Esc => dialog_closed(old, new) && fx.len() == 0,
        _ => new == old && fx.len() == 0,
    }
}

/// What a key does in the editor (see `App::handle_editor_key`).
pub open spec fn editor_key_applied(old: App, new: App, key: KeyEvent, fx: Seq<Effect>) -> bool {
    &&& new.editor@ == editor_after_key(old.editor@, key)
    &&& new == (App { editor: new.editor, ..old })
    &&& if key.code == KeyCode::Char('s') && key.ctrl {
        save_requested(old.editor, fx)
    } else {
        fx.len() == 0
    }
}

/// The listing of the new directory when it changed, and git's status in
/// any case.
pub open spec fn reload_fx(moved: bool) -> Seq<Effect> {
    if moved {
        seq![Effect::LoadDir, Effect::RefreshGit]
    } else {
        seq![Effect::RefreshGit]
    }
}

/// The parent directory entered (cursor on row 0) when there is one.
pub open spec fn went_up(old: App, new: App, fx: Seq<Effect>) -> bool {
    let s = old.state;
    &&& fx == reload_fx(s.has_parent_row())
    &&& if s.has_parent_row() {
        &&& new.state.cwd@ == parent_of(s.cwd@)->0
        &&& new == (App { state: AppState { cwd: new.state.cwd, selected: 0, ..s }, ..old })
    } else {
        new == old
    }
}

/// The directory under the cursor entered (cursor on row 0); a file or a
/// cursor past the entries changes nothing.
pub open spec fn went_into(old: App, new: App, fx: Seq<Effect>) -> bool {
    let s = old.state;
    let dir = 0 <= s.entry_index() < s.entries@.len() && s.entries@[s.entry_index()].is_dir;
    &&& fx == reload_fx(dir)
    &&& if dir {
        new == (App {
            state: AppState { cwd: s.entries@[s.entry_index()].path, selected: 0, ..s },
            ..old
        })
    } else {
        new == old
    }
}

/// Hidden files shown or hidden, the choice kept in the settings.
pub open spec fn hidden_toggled(old: App, new: App) -> bool {
    new == (App {
        state: AppState { show_hidden: !old.state.show_hidden, ..old.state },
        config: Config { show_hidden: !old.state.show_hidden, ..old.config },
        ..old
    })
}

/// Directory sizes turned on or off, the choice kept in the settings.
pub open spec fn dir_size_toggled(old: App, new: App) -> bool {
    new == (App {
        state: AppState { calculate_dir_size: !old.state.calculate_dir_size, ..old.state },
        config: Config { calculate_dir_size: !old.state.calculate_dir_size, ..old.config },
        ..old
    })
}

/// The next sort order chosen and the entries sorted by it.
pub open spec fn sort_cycled(old: App, new: App) -> bool {
    &&& new.state.sort_order == old.state.sort_order.next_order()
    &&& stably_sorted(new.state.sort_order, new.state.entries@, old.state.entries@)
    &&& new == (App {
        state: AppState { sort_order: new.state.sort_order, entries: new.state.entries, ..old.state },
        ..old
    })
}

/// The preview pane shown or hidden.
pub open spec fn preview_toggled(old: App, new: App) -> bool {
    new == (App { state: AppState { preview_open: !old.state.preview_open, ..old.state }, ..old })
}

/// The command palette opened with an empty query, every command listed and
/// the first highlighted.
pub open spec fn palette_opened(old: App, new: App) -> bool {
    &&& new.command_palette.active
    &&& new.command_palette.mode == PaletteMode::Actions
    &&& new.command_palette.query@.len() == 0
    &&& new.command_palette.filtered@ == old.command_palette.all_items@
    &&& new.command_palette.all_items == old.command_palette.all_items
    &&& new.command_palette.selected == 0
    &&& new == (App { command_palette: new.command_palette, ..old })
}

/// The command palette opened for a search of kind `mode` over the results
/// `rs`, with an empty query, the results listed (none yet for grep) and the
/// first highlighted.
pub open spec fn search_opened(
    old: App,
    new: App,
    mode: PaletteMode,
    rs: Seq<(Seq<char>, Seq<char>, Seq<char>, bool)>,
) -> bool {
    &&& new.command_palette.active
    &&& new.command_palette.mode == mode
    &&& new.command_palette.query@.len() == 0
    &&& searches_view(new.command_palette.results@) == rs
    &&& searches_view(new.command_palette.found@) == results_for(mode, rs, Seq::empty())
    &&& new.command_palette.all_items == old.command_palette.all_items
    &&& new.command_palette.filtered == old.command_palette.filtered
    &&& new.command_palette.selected == 0
    &&& new == (App { command_palette: new.command_palette, ..old })
}

/// Going to a search result: a directory becomes the current one (the
/// listing and the git status are read again), a file is selected in the
/// listing as `select_by_path` selects it.
pub open spec fn jumped(old: App, new: App, path: Seq<char>, is_dir: bool, fx: Seq<Effect>) -> bool {
    if is_dir {
        &&& new.state.cwd@ == path
        &&& new == (App { state: AppState { cwd: new.state.cwd, ..old.state }, ..old })
        &&& fx == reload_fx(true)
    } else {
        &&& path_selected(old.state, new.state, path)
        &&& new == (App { state: new.state, ..old })
        &&& fx.len() == 0
    }
}

/// What running a menu or palette action does (see `App::execute_action`).
pub open spec fn action_applied(old: App, new: App, a: MenuAction, fx: Seq<Effect>) -> bool {
    let s = old.state;
    match a {
        MenuAction::NewFile => dialog_shown(old, new, DialogType::NewFile) && fx.len() == 0,
        MenuAction::NewFolder => dialog_shown(old, new, DialogType::NewFolder) && fx.len() == 0,
        MenuAction::Rename => rename_started(old, new) && fx.len() == 0,
        MenuAction::Delete => fx.len() == 0 && if s.selected_paths@.len() > 0 || (0 <= s.entry_index()
            < s.entries@.len()) {
            dialog_shown(old, new, DialogType::Delete)
        } else {
            new == old
        },
        MenuAction::Quit => new == old && fx == seq![Effect::Quit],
        MenuAction::Undo => fx.len() == 0 && if old.editor.active {
            new.editor@ == old.editor@.undone() && new == (App { editor: new.editor, ..old })
        } else {
            new == old
        },
        MenuAction::Redo => fx.len() == 0 && if old.editor.active {
            new.editor@ == old.editor@.redone() && new == (App { editor: new.editor, ..old })
        } else {
            new == old
        },
        MenuAction::ToggleHidden => hidden_toggled(old, new) && fx == seq![Effect::SaveConfig, Effect::LoadDir],
        MenuAction::TogglePreview => preview_toggled(old, new) && fx.len() == 0,
        MenuAction::CycleSort => sort_cycled(old, new) && fx.len() == 0,
        MenuAction::CycleTheme => new == old && fx == seq![Effect::CycleTheme],
        MenuAction::Refresh => new == old && fx == reload_fx(true),
        MenuAction::OpenEditor => new == old && read_requested(s, fx),
        MenuAction::GoUp => went_up(old, new, fx),
        MenuAction::ShowKeybindings => new == (App { show_keybindings: true, ..old }) && fx.len() == 0,
        MenuAction::ShowAbout => new == (App { show_about: true, ..old }) && fx.len() == 0,
        MenuAction::OpenCommandPalette => palette_opened(old, new) && fx.len() == 0,
    }
}

/// What a character key does in the file list (see `App::handle_key_event`);
/// `ctrl` tells whether Ctrl is held.
pub open spec fn list_char_applied(old: App, new: App, c: char, ctrl: bool, fx: Seq<Effect>) -> bool {
    let s = old.state;
    if c == ' ' {
        selection_toggled(s, new.state) && new == (App { state: new.state, ..old }) && fx.len() == 0
    } else if c == 'e' {
        new == old && read_requested(s, fx)
    } else if !ctrl {
        if c == 'o' {
            new == old && external_requested(s, fx)
        } else {
            new == old && fx.len() == 0
        }
    } else if c == 'p' {
        palette_opened(old, new) && fx.len() == 0
    } else if c == 'f' {
        search_opened(old, new, PaletteMode::Files, file_results(s.entries@)) && fx.len() == 0
    } else if c == 'g' {
        search_opened(old, new, PaletteMode::Grep, Seq::empty()) && fx == seq![Effect::ReadForGrep]
    } else if c == 'j' {
        search_opened(old, new, PaletteMode::Bookmarks, bookmark_results(old.config.bookmarks.deep_view()))
            && fx.len() == 0
    } else if c == 'd' {
        new == (App { state: AppState { show_git_diff: !s.show_git_diff, ..s }, ..old }) && fx.len() == 0
    } else if c == 'i' {
        dir_size_toggled(old, new) && fx == seq![Effect::SaveConfig, Effect::LoadDir]
    } else if c == 'b' {
        bookmark_toggled(old, new) && fx == seq![Effect::SaveConfig]
    } else if c == 's' {
        new == old && save_requested(old.editor, fx)
    } else if c == 'q' {
        new.editor@ == closed_editor() && new == (App { editor: new.editor, ..old }) && fx.len() == 0
    } else if c == 'n' {
        dialog_shown(old, new, DialogType::NewFile) && fx.len() == 0
    } else if c == 'r' {
        rename_started(old, new) && fx.len() == 0
    } else if c == 't' {
        new == old && fx == seq![Effect::CycleTheme]
    } else if c == 'o' {
        sort_cycled(old, new) && fx.len() == 0
    } else if c == 'h' {
        hidden_toggled(old, new) && fx == seq![Effect::SaveConfig, Effect::LoadDir]
    } else if c == 'c' {
        put_on_clipboard(old, new, false) && fx.len() == 0
    } else if c == 'x' {
        put_on_clipboard(old, new, true) && fx.len() == 0
    } else if c == 'v' {
        pasted(old, new, fx)
    } else {
        new == old && fx.len() == 0
    }
}

/// What a key does in the file list, with no menu, palette, editor, dialog
/// or help window open (see `App::handle_key_event`).
pub open spec fn list_key_applied(old: App, new: App, key: KeyEvent, fx: Seq<Effect>) -> bool {
    let s = old.state;
    match key.code {
        KeyCode::F(n) => if n == 10 {
            &&& new == (App {
                menu_bar: MenuBarState { open_index: Some(0), selected_item: Some(0), ..old.menu_bar },
                ..old
            })
            &&& fx.len() == 0
        } else if n == 5 {
            new == old && fx == reload_fx(true)
        } else {
            new == old && fx.len() == 0
        },
        KeyCode::Char(c) => list_char_applied(old, new, c, key.ctrl, fx),
        KeyCode::Up => fx.len() == 0 && new == (if s.selected > 0 {
            App { state: AppState { selected: (s.selected - 1) as usize, ..s }, ..old }
        } else {
            old
        }),
        KeyCode::Down => fx.len() == 0 && new == (if s.selected < last_row(s) {
            App { state: AppState { selected: (s.selected + 1) as usize, ..s }, ..old }
        } else {
            old
        }),
        KeyCode::Enter => if s.has_parent_row() && s.selected == 0 {
            went_up(old, new, fx)
        } else {
            went_into(old, new, fx)
        },
        KeyCode::Left => went_up(old, new, fx),
        KeyCode::BackTab => went_up(old, new, fx),
        KeyCode::Backspace => went_up(old, new, fx),
        KeyCode::Tab => preview_toggled(old, new) && fx.len() == 0,
        KeyCode::Delete => fx.len() == 0 && if 0 <= s.entry_index() < s.entries@.len() {
            dialog_shown(old, new, DialogType::Delete)
        } else {
            new == old
        },
        KeyCode::Esc => fx.len() == 0 && if s.selected_paths@.len() == 0 {
            dialog_closed(old, new)
        } else {
            new.state.selected_paths@.len() == 0 && new == (App {
                state: AppState { selected_paths: new.state.selected_paths, ..s },
                ..old
            })
        },
        _ => new == old && fx.len() == 0,
    }
}

/// What a key does (see `App::handle_key_event`): the open palette, the help
/// windows, an open menu, the editor and the dialog each take the key before
/// the file list, in that order.
pub open spec fn key_handled(old: App, new: App, key: KeyEvent, fx: Seq<Effect>) -> bool {
    if old.command_palette.active {
        exists|p: CommandPaletteState, r: CommandPaletteResult|
            #[trigger] palette_stepped(old.command_palette, key, p, r) && match r {
                CommandPaletteResult::Action(a) => action_applied(App { command_palette: p, ..old }, new, a, fx),
                CommandPaletteResult::Jump(path, d) => jumped(App { command_palette: p, ..old }, new, path@, d, fx),
                _ => new == (App { command_palette: p, ..old }) && fx.len() == 0,
            }
    } else if old.show_about {
        fx.len() == 0 && new == (if key.code == KeyCode::Esc || key.code == KeyCode::Enter {
            App { show_about: false, ..old }
        } else {
            old
        })
    } else if old.show_keybindings {
        fx.len() == 0 && new == (if key.code == KeyCode::Esc || key.code == KeyCode::Enter {
            App { show_keybindings: false, ..old }
        } else {
            old
        })
    } else if old.menu_bar.open_index is Some {
        let (m, r) = old.menu_bar.key_result(key);
        match r {
            Some(a) => action_applied(App { menu_bar: m, ..old }, new, a, fx),
            None => new == (App { menu_bar: m, ..old }) && fx.len() == 0,
        }
    } else if old.editor.active {
        editor_key_applied(old, new, key, fx)
    } else if old.dialog.dialog_type != DialogType::Inactive {
        dialog_key_applied(old, new, key, fx)
    } else {
        list_key_applied(old, new, key, fx)
    }
}

/// The row of the file list shown at screen row `row`: the list starts at
/// row 5 with the `..` row, when there is one, and shows at most 20 entries.
pub open spec fn list_row_at(s: AppState, row: int) -> Option<int> {
    let base: int = if s.has_parent_row() { 1 } else { 0 };
    let n = s.entries@.len() as int;
    let shown = if n < 20 { n } else { 20 };
    if 5 <= row < 5 + base + shown {
        Some(row - 5)
    } else {
        None
    }
}

/// The bar with menu `i` open and its first item highlighted.
pub open spec fn menu_opened(m: MenuBarState, i: int) -> MenuBarState {
    MenuBarState { open_index: Some(i as usize), selected_item: Some(0), ..m }
}

/// What a mouse event does (see `App::handle_mouse_event`).
pub open spec fn mouse_handled(old: App, new: App, ev: MouseEvent, fx: Seq<Effect>) -> bool {
    let s = old.state;
    let bar = old.menu_bar;
    let row = ev.row as int;
    let col = ev.column as int;
    if old.editor.active || old.command_palette.active || old.show_about || old.show_keybindings {
        new == old && fx.len() == 0
    } else if bar.open_index is Some {
        if ev.kind != MouseKind::Down {
            new == old && fx.len() == 0
        } else if row == 0 {
            &&& fx.len() == 0
            &&& new == (App {
                menu_bar: match title_hit(bar.menus@, 0, col) {
                    Some(i) => if bar.open_index == Some(i as usize) {
                        bar.closed()
                    } else {
                        menu_opened(bar, i)
                    },
                    None => bar.closed(),
                },
                ..old
            })
        } else {
            let (m, r) = bar.clicked(row, col);
            match r {
                Some(a) => action_applied(App { menu_bar: m, ..old }, new, a, fx),
                None => new == (App { menu_bar: m.closed(), ..old }) && fx.len() == 0,
            }
        }
    } else {
        &&& fx.len() == 0
        &&& match ev.kind {
            MouseKind::ScrollUp => new == (if s.selected > 0 {
                App { state: AppState { selected: (s.selected - 1) as usize, ..s }, ..old }
            } else {
                old
            }),
            MouseKind::ScrollDown => new == (if s.selected < last_row(s) {
                App { state: AppState { selected: (s.selected + 1) as usize, ..s }, ..old }
            } else {
                old
            }),
            MouseKind::Down => new == (if row == 0 {
                match title_hit(bar.menus@, 0, col) {
                    Some(i) => App { menu_bar: menu_opened(bar, i), ..old },
                    None => old,
                }
            } else {
                match list_row_at(s, row) {
                    Some(k) => App { state: AppState { selected: k as usize, ..s }, ..old },
                    None => old,
                }
            }),
            MouseKind::Other => new == old,
        }
    }
}

impl App {
    /// The listing shows hidden files and directory sizes as the settings say.
    pub open spec fn settings_agree(&self) -> bool {
        &&& self.config.show_hidden == self.state.show_hidden
        &&& self.config.calculate_dir_size == self.state.calculate_dir_size
    }

    /// No path is marked twice, the menus are well-formed and fit the screen,
    /// the palette's highlight is in range, and the listing follows the
    /// settings.
    pub open spec fn inv(&self) -> bool {
        &&& self.settings_agree()
        &&& self.state.marks_distinct()
        &&& self.menu_bar.well_formed()
        &&& menus_fit(self.menu_bar.menus@)
        &&& self.command_palette.cursor_in_range()
    }

    /// A key that reaches the editor is one it can take without a panic.
    pub open spec fn key_ok(&self, key: KeyEvent) -> bool {
        (!self.command_palette.active && !self.show_about && !self.show_keybindings
            && self.menu_bar.open_index is None && self.editor.active) ==> editor_key_ok(self.editor@, key)
    }

    /// The explorer for the directory `cwd` with the given settings, before
    /// its first listing: the caller then does `LoadDir` and `RefreshGit`.
    pub fn new(cwd: String, config: Config) -> (a: Self)
        ensures
            a.state.cwd@ == cwd@,
            a.state.entries@.len() == 0,
            a.state.selected == 0,
            a.state.sort_order == SortOrder::Name,
            a.state.show_hidden == config.show_hidden,
            a.state.calculate_dir_size == config.calculate_dir_size,
            !a.state.preview_open,
            !a.state.show_git_diff,
            a.state.selected_paths@.len() == 0,
            a.state.file_filter@.len() == 0,
            a.config == config,
            a.dialog.dialog_type == DialogType::Inactive,
            a.dialog.input@.len() == 0,
            a.dialog.error is None,
            a.editor@ == closed_editor(),
            a.git_status is None,
            menus_view(a.menu_bar.menus@) == default_menus(),
            a.menu_bar.open_index is None,
            a.menu_bar.selected_item is None,
            a.command_palette.all_items@.map_values(|c: CommandItem| item_fields(c)) == default_commands(),
            a.command_palette.filtered@ == a.command_palette.all_items@,
            a.command_palette.query@.len() == 0,
            a.command_palette.selected == 0,
            !a.command_palette.active,
            a.command_palette.mode == PaletteMode::Actions,
            !a.show_about,
            !a.show_keybindings,
            a.clipboard@.len() == 0,
            !a.clipboard_cut,
            a.inv(),
    {
        let mut state = AppState::new(cwd);
        state.show_hidden = config.show_hidden;
        state.calculate_dir_size = config.calculate_dir_size;
        App {
            state,
            config,
            dialog: DialogState::default(),
            editor: EditorState::new(),
            git_status: None,
            menu_bar: MenuBarState::new(),
            command_palette: CommandPaletteState::new(),
            show_about: false,
            show_keybindings: false,
            clipboard: Vec::new(),
            clipboard_cut: false,
        }
    }

    /// Shows or hides the preview pane.
    pub fn toggle_preview(&mut self)
        ensures
            preview_toggled(*old(self), *final(self)),
    {
        self.state.preview_open = !self.state.preview_open;
    }

    /// Switches to the next sort order and sorts the entries by it.
    pub fn cycle_sort(&mut self)
        ensures
            sort_cycled(*old(self), *final(self)),
    {
        self.state.sort_order = self.state.sort_order.next();
        self.state.sort_entries();
    }

    /// Shows or hides hidden files, remembering the choice in the settings.
    pub fn toggle_hidden(&mut self) -> (fx: Vec<Effect>)
        ensures
            hidden_toggled(*old(self), *final(self)),
            fx@ == seq![Effect::SaveConfig, Effect::LoadDir],
    {
        self.state.show_hidden = !self.state.show_hidden;
        self.config.show_hidden = self.state.show_hidden;
        vec![Effect::SaveConfig, Effect::LoadDir]
    }

    /// Turns the directory sizes in the listing on or off, remembering the
    /// choice in the settings.
    pub fn toggle_dir_size(&mut self) -> (fx: Vec<Effect>)
        ensures
            dir_size_toggled(*old(self), *final(self)),
            fx@ == seq![Effect::SaveConfig, Effect::LoadDir],
    {
        self.state.calculate_dir_size = !self.state.calculate_dir_size;
        self.config.calculate_dir_size = self.state.calculate_dir_size;
        vec![Effect::SaveConfig, Effect::LoadDir]
    }

    /// Bookmarks the current directory, or removes every bookmark equal to it
    /// (as a path) when there is one.
    pub fn toggle_bookmark(&mut self) -> (fx: Vec<Effect>)
        ensures
            bookmark_toggled(*old(self), *final(self)),
            fx@ == seq![Effect::SaveConfig],
    {
        let ghost key = components_of(self.state.cwd@);
        let ghost before = self.config.bookmarks@;
        let mut kept: Vec<String> = Vec::new();
        let mut found = false;
        let mut i: usize = 0;
        while i < self.config.bookmarks.len()
            invariant
                i <= before.len(),
                before == self.config.bookmarks@,
                key == components_of(self.state.cwd@),
                kept@ == before.take(i as int).filter(other_path(key)),
                found == exists|j: int| 0 <= j < i && components_of(#[trigger] before[j]@) == key,
            decreases self.config.bookmarks.len() - i,
        {
            proof {
                assert(before.take(i + 1) =~= before.take(i as int).push(before[i as int]));
                before.take(i as int).lemma_filter_push(before[i as int], other_path(key));
            }
            if same_path(self.config.bookmarks[i].as_str(), self.state.cwd.as_str()) {
                found = true;
            } else {
                kept.push(self.config.bookmarks[i].clone());
            }
            i = i + 1;
        }
        assert(before.take(before.len() as int) =~= before);
        if found {
            self.config.bookmarks = kept;
        } else {
            let p = self.state.cwd.clone();
            self.config.bookmarks.push(p);
        }
        vec![Effect::SaveConfig]
    }

    fn target_list(&self) -> (r: Vec<String>)
        ensures
            r.deep_view() == target_paths(self.state),
    {
        if self.state.selected_paths.len() > 0 {
            crate::text::clone_lines(&self.state.selected_paths)
        } else {
            match self.state.selected_entry() {
                Some(e) => {
                    let v = vec![e.path.clone()];
                    assert(v.deep_view() =~= target_paths(self.state));
                    v
                },
                None => {
                    let v: Vec<String> = Vec::new();
                    assert(v.deep_view() =~= target_paths(self.state));
                    v
                },
            }
        }
    }

    /// Puts the marked paths (or else the entry under the cursor) on the
    /// clipboard, to be copied.
    pub fn copy_selection(&mut self)
        ensures
            put_on_clipboard(*old(self), *final(self), false),
    {
        self.clipboard = self.target_list();
        self.clipboard_cut = false;
    }

    /// Puts the marked paths (or else the entry under the cursor) on the
    /// clipboard, to be moved.
    pub fn cut_selection(&mut self)
        ensures
            put_on_clipboard(*old(self), *final(self), true),
    {
        self.clipboard = self.target_list();
        self.clipboard_cut = true;
    }

    /// Pastes the clipboard into the current directory, then shows the new
    /// listing; a cut clipboard is emptied. With an empty clipboard nothing
    /// happens.
    pub fn paste(&mut self) -> (fx: Vec<Effect>)
        ensures
            pasted(*old(self), *final(self), fx@),
    {
        if self.clipboard.len() == 0 {
            return Vec::new();
        }
        let paths = crate::text::clone_lines(&self.clipboard);
        let cut = self.clipboard_cut;
        if cut {
            self.clipboard.clear();
        }
        vec![Effect::Paste(paths, cut), Effect::LoadDir, Effect::RefreshGit]
    }

    /// Asks for the file under the cursor to be read into the editor (not for
    /// a directory or without an entry).
    pub fn open_editor(&self) -> (fx: Vec<Effect>)
        ensures
            read_requested(self.state, fx@),
    {
        match self.state.selected_entry() {
            Some(e) => if !e.is_dir {
                vec![Effect::ReadForEditor(e.path.clone())]
            } else {
                Vec::new()
            },
            None => Vec::new(),
        }
    }

    /// Opens the text read from `path` in the editor, one line per line of
    /// the text.
    pub fn editor_loaded(&mut self, text: String, path: String)
        ensures
            final(self).editor@ == (crate::editor::EditorView {
                lines: text_lines(text@),
                path: Some(path@),
                modified: false,
                active: true,
                cursor_line: 0,
                cursor_col: 0,
                scroll_offset: 0,
                undo: Seq::empty(),
                redo: Seq::empty(),
            }),
            *final(self) == (App { editor: final(self).editor, ..*old(self) }),
    {
        let lines = split_lines(text.as_str());
        self.editor.open(lines, path);
    }

    /// Opens the file search over the listing.
    fn open_file_search(&mut self)
        requires
            old(self).inv(),
        ensures
            final(self).inv(),
            search_opened(*old(self), *final(self), PaletteMode::Files, file_results(old(self).state.entries@)),
    {
        self.command_palette.open_files(&self.state.entries);
        assert(results_for(PaletteMode::Files, file_results(old(self).state.entries@), Seq::empty())
            == file_results(old(self).state.entries@));
    }

    /// Opens the bookmark search.
    fn open_bookmark_search(&mut self)
        requires
            old(self).inv(),
        ensures
            final(self).inv(),
            search_opened(
                *old(self),
                *final(self),
                PaletteMode::Bookmarks,
                bookmark_results(old(self).config.bookmarks.deep_view()),
            ),
    {
        self.command_palette.open_bookmarks(&self.config.bookmarks);
        assert(results_for(
            PaletteMode::Bookmarks,
            bookmark_results(old(self).config.bookmarks.deep_view()),
            Seq::empty(),
        ) == bookmark_results(old(self).config.bookmarks.deep_view()));
    }

    /// Opens grep and asks for the files' lines.
    fn open_grep_search(&mut self) -> (fx: Vec<Effect>)
        requires
            old(self).inv(),
        ensures
            final(self).inv(),
            search_opened(*old(self), *final(self), PaletteMode::Grep, Seq::empty()),
            fx@ == seq![Effect::ReadForGrep],
    {
        self.command_palette.open_grep();
        assert(searches_view(self.command_palette.results@) =~= Seq::empty());
        assert(searches_view(self.command_palette.found@) =~= Seq::empty());
        let fx = vec![Effect::ReadForGrep];
        assert(fx@ =~= seq![Effect::ReadForGrep]);
        fx
    }

    /// Goes to a search result: enters the directory `path`, or selects the
    /// file `path` in the listing.
    pub fn jump_to(&mut self, path: String, is_dir: bool) -> (fx: Vec<Effect>)
        requires
            old(self).inv(),
        ensures
            final(self).inv(),
            jumped(*old(self), *final(self), path@, is_dir, fx@),
    {
        if is_dir {
            self.state.cwd = path;
            let fx = vec![Effect::LoadDir, Effect::RefreshGit];
            assert(fx@ =~= reload_fx(true));
            fx
        } else {
            self.state.select_by_path(path.as_str());
            Vec::new()
        }
    }

    /// Gives the open grep the lines of the files read for it; when grep is
    /// no longer open nothing changes.
    pub fn grep_loaded(&mut self, files: Vec<GrepFile>)
        requires
            old(self).inv(),
        ensures
            final(self).inv(),
            if old(self).command_palette.active && old(self).command_palette.mode == PaletteMode::Grep {
                let p = old(self).command_palette;
                let q = final(self).command_palette;
                &&& searches_view(q.results@) == grep_results(files@)
                &&& searches_view(q.found@) == results_for(PaletteMode::Grep, grep_results(files@), p.query@)
                &&& q.selected == clamp_row(p.selected, q.found@.len() as int)
                &&& q == (CommandPaletteState { results: q.results, found: q.found, selected: q.selected, ..p })
                &&& *final(self) == (App { command_palette: q, ..*old(self) })
            } else {
                *final(self) == *old(self)
            },
    {
        if self.command_palette.active && self.command_palette.mode == PaletteMode::Grep {
            self.command_palette.load_grep(&files);
        }
    }

    /// Moves to the theme after `current`, the theme in use, among
    /// `theme_names`: its name becomes `config.theme` and the settings are
    /// written. A theme not among them changes nothing.
    pub fn theme_cycled(&mut self, current: &str) -> (fx: Vec<Effect>)
        requires
            old(self).inv(),
        ensures
            final(self).inv(),
            match theme_after(theme_name_list(), current@) {
                Some(n) => {
                    &&& final(self).config.theme@ == n
                    &&& *final(self) == (App {
                        config: Config { theme: final(self).config.theme, ..old(self).config },
                        ..*old(self)
                    })
                    &&& fx@ == seq![Effect::SaveConfig]
                },
                None => *final(self) == *old(self) && fx@.len() == 0,
            },
    {
        let names = theme_names();
        match next_theme(&names, current) {
            Some(n) => {
                self.config.theme = n;
                let fx = vec![Effect::SaveConfig];
                assert(fx@ =~= seq![Effect::SaveConfig]);
                fx
            },
            None => Vec::new(),
        }
    }

    /// Asks for the editor's text to be written to its file, when one is open.
    pub fn save_editor(&self) -> (fx: Vec<Effect>)
        ensures
            save_requested(self.editor, fx@),
    {
        match self.editor.save_request() {
            Some((p, t)) => vec![Effect::WriteEditor(p, t)],
            None => Vec::new(),
        }
    }

    /// Records whether writing the editor's text worked.
    pub fn editor_saved(&mut self, written: bool)
        ensures
            final(self).editor@ == (if old(self).editor.path is Some && written {
                crate::editor::EditorView { modified: false, ..old(self).editor@ }
            } else {
                old(self).editor@
            }),
            *final(self) == (App { editor: final(self).editor, ..*old(self) }),
    {
        self.editor.save(written);
    }

    /// Leaves the editor.
    pub fn close_editor(&mut self)
        ensures
            final(self).editor@ == closed_editor(),
            *final(self) == (App { editor: final(self).editor, ..*old(self) }),
    {
        self.editor.close();
    }

    /// Asks for the entry under the cursor to be opened with the system's
    /// default application.
    pub fn open_external(&self) -> (fx: Vec<Effect>)
        ensures
            external_requested(self.state, fx@),
    {
        match self.state.selected_entry() {
            Some(e) => vec![Effect::OpenExternal(e.path.clone())],
            None => Vec::new(),
        }
    }

    /// Shows why opening with the default application failed.
    pub fn external_open_failed(&mut self, message: String)
        ensures
            final(self).dialog.error matches Some(e) && e@ == "Failed to open: "@ + message@,
            final(self).dialog.dialog_type == old(self).dialog.dialog_type,
            final(self).dialog.input == old(self).dialog.input,
            *final(self) == (App { dialog: final(self).dialog, ..*old(self) }),
    {
        let mut t = chars_of("Failed to open: ");
        push_all(&mut t, &chars_of(message.as_str()));
        self.dialog.error = Some(string_from_chars(&t));
    }

    /// Closes the dialog.
    pub fn cancel_dialog(&mut self)
        ensures
            dialog_closed(*old(self), *final(self)),
    {
        self.dialog.dismiss();
    }

    /// Deletes the marked paths (or else the entry under the cursor): unmarks
    /// everything, closes the dialog and asks for the deletion and a new
    /// listing.
    pub fn confirm_delete(&mut self) -> (fx: Vec<Effect>)
        ensures
            delete_confirmed(*old(self), *final(self), fx@),
    {
        let paths = self.target_list();
        self.state.clear_selection();
        self.dialog.dismiss();
        vec![Effect::DeletePaths(paths), Effect::LoadDir, Effect::RefreshGit]
    }

    /// Carries out the shown dialog with its input: a file or folder named by
    /// the input in the current directory is created, the entry under the
    /// cursor renamed to it, or the deletion confirmed. An empty name does
    /// nothing; the outcome of a creation or renaming comes back through
    /// `dialog_result`.
    pub fn confirm_dialog(&mut self) -> (fx: Vec<Effect>)
        ensures
            dialog_confirmed(*old(self), *final(self), fx@),
    {
        match self.dialog.dialog_type {
            DialogType::NewFile => {
                if self.dialog.input.as_str().is_empty() {
                    return Vec::new();
                }
                let path = path_join(self.state.cwd.as_str(), self.dialog.input.as_str());
                vec![Effect::CreateFile(path)]
            },
            DialogType::NewFolder => {
                if self.dialog.input.as_str().is_empty() {
                    return Vec::new();
                }
                let path = path_join(self.state.cwd.as_str(), self.dialog.input.as_str());
                vec![Effect::CreateFolder(path)]
            },
            DialogType::Rename => {
                if self.dialog.input.as_str().is_empty() {
                    return Vec::new();
                }
                match self.state.selected_entry() {
                    Some(entry) => {
                        let new_path = path_join(self.state.cwd.as_str(), self.dialog.input.as_str());
                        vec![Effect::RenamePath(entry.path.clone(), new_path)]
                    },
                    None => Vec::new(),
                }
            },
            DialogType::Delete => self.confirm_delete(),
            DialogType::Inactive => Vec::new(),
        }
    }

    /// The outcome of creating or renaming for the dialog: an error is shown
    /// in the dialog; on success the dialog closes and the listing is read
    /// again.
    pub fn dialog_result(&mut self, result: Result<(), String>) -> (fx: Vec<Effect>)
        ensures
            match result {
                Ok(()) => {
                    &&& fx@ == seq![Effect::LoadDir, Effect::RefreshGit]
                    &&& final(self).dialog.dialog_type == DialogType::Inactive
                    &&& final(self).dialog.input@.len() == 0
                    &&& final(self).dialog.error is None
                    &&& *final(self) == (App { dialog: final(self).dialog, ..*old(self) })
                },
                Err(e) => {
                    &&& fx@.len() == 0
                    &&& final(self).dialog.error == Some(e)
                    &&& *final(self) == (App { dialog: DialogState { error: Some(e), ..old(self).dialog }, ..*old(self) })
                },
            },
    {
        match result {
            Ok(()) => {
                self.dialog.dismiss();
                vec![Effect::LoadDir, Effect::RefreshGit]
            },
            Err(e) => {
                self.dialog.error = Some(e);
                Vec::new()
            },
        }
    }

    /// Handles a key while the dialog is shown: for a deletion `y` confirms
    /// and `n` cancels; otherwise typed characters and Backspace edit the
    /// input; Enter confirms and Esc cancels.
    pub fn handle_dialog_key(&mut self, key: KeyEvent) -> (fx: Vec<Effect>)
        ensures
            dialog_key_applied(*old(self), *final(self), key, fx@),
    {
        match key.code {
            KeyCode::Char(c) => {
                if self.dialog.dialog_type == DialogType::Delete {
                    if c == 'y' {
                        self.confirm_delete()
                    } else if c == 'n' {
                        self.cancel_dialog();
                        Vec::new()
                    } else {
                        Vec::new()
                    }
                } else {
                    let mut t = chars_of(self.dialog.input.as_str());
                    t.push(c);
                    self.dialog.input = string_from_chars(&t);
                    Vec::new()
                }
            },
            KeyCode::Backspace => {
                if self.dialog.dialog_type != DialogType::Delete {
                    let mut t = chars_of(self.dialog.input.as_str());
                    t.pop();
                    self.dialog.input = string_from_chars(&t);
                }
                Vec::new()
            },
            KeyCode::Enter => self.confirm_dialog(),
            KeyCode::Esc => {
                self.cancel_dialog();
                Vec::new()
            },
            _ => Vec::new(),
        }
    }

    fn editor_line_len(&self, i: usize) -> (n: usize)
        ensures
            n == line_len(self.editor@, i as int),
    {
        if i < self.editor.content.len() {
            crate::text::byte_len(self.editor.content[i].as_str())
        } else {
            0
        }
    }

    /// Handles a key in the editor: the arrows, Home and End move the cursor;
    /// characters are typed (without Ctrl); Backspace and Enter edit; Esc and
    /// Ctrl+Q leave; Ctrl+S saves; Ctrl+Z and Ctrl+Y undo and redo.
    pub fn handle_editor_key(&mut self, key: KeyEvent) -> (fx: Vec<Effect>)
        requires
            editor_key_ok(old(self).editor@, key),
        ensures
            editor_key_applied(*old(self), *final(self), key, fx@),
    {
        let cl = self.editor.cursor_line;
        let col = self.editor.cursor_col;
        match key.code {
            KeyCode::Up => {
                if cl > 0 {
                    self.editor.cursor_line = cl - 1;
                    let len = self.editor_line_len(cl - 1);
                    if col > len {
                        self.editor.cursor_col = len;
                    }
                }
                if self.editor.cursor_line < self.editor.scroll_offset {
                    self.editor.scroll_offset = self.editor.cursor_line;
                }
                Vec::new()
            },
            KeyCode::Down => {
                let n = self.editor.content.len();
                if n > 0 && cl < n - 1 {
                    self.editor.cursor_line = cl + 1;
                    let len = self.editor_line_len(cl + 1);
                    if col > len {
                        self.editor.cursor_col = len;
                    }
                }
                if self.editor.cursor_line >= self.editor.scroll_offset + 20 {
                    self.editor.scroll_offset = self.editor.cursor_line - 19;
                }
                Vec::new()
            },
            KeyCode::Left => {
                if col > 0 {
                    self.editor.cursor_col = col - 1;
                } else if cl > 0 {
                    self.editor.cursor_line = cl - 1;
                    self.editor.cursor_col = self.editor_line_len(cl - 1);
                }
                Vec::new()
            },
            KeyCode::Right => {
                let len = self.editor_line_len(cl);
                if col < len {
                    self.editor.cursor_col = col + 1;
                } else if cl < self.editor.content.len() - 1 {
                    self.editor.cursor_line = cl + 1;
                    self.editor.cursor_col = 0;
                }
                Vec::new()
            },
            KeyCode::Home => {
                self.editor.cursor_col = 0;
                Vec::new()
            },
            KeyCode::End => {
                self.editor.cursor_col = self.editor_line_len(cl);
                Vec::new()
            },
            KeyCode::Char(c) => {
                if !key.ctrl {
                    self.editor.insert_char(c);
                    Vec::new()
                } else if c == 's' {
                    self.save_editor()
                } else if c == 'q' {
                    self.editor.close();
                    Vec::new()
                } else if c == 'z' {
                    self.editor.undo();
                    Vec::new()
                } else if c == 'y' {
                    self.editor.redo();
                    Vec::new()
                } else {
                    Vec::new()
                }
            },
            KeyCode::Backspace => {
                self.editor.backspace();
                Vec::new()
            },
            KeyCode::Enter => {
                self.editor.newline();
                Vec::new()
            },
            KeyCode::Esc => {
                self.editor.close();
                Vec::new()
            },
            _ => Vec::new(),
        }
    }

    fn start_rename(&mut self)
        ensures
            rename_started(*old(self), *final(self)),
    {
        let name = match self.state.selected_entry() {
            Some(e) => Some(e.name.clone()),
            None => None,
        };
        if let Some(n) = name {
            self.dialog.show(DialogType::Rename);
            self.dialog.input = n;
        }
    }

    fn go_up(&mut self) -> (fx: Vec<Effect>)
        ensures
            went_up(*old(self), *final(self), fx@),
    {
        let moved = self.state.cd_parent();
        let fx = if moved {
            vec![Effect::LoadDir, Effect::RefreshGit]
        } else {
            vec![Effect::RefreshGit]
        };
        assert(fx@ =~= reload_fx(moved));
        fx
    }

    fn go_into(&mut self) -> (fx: Vec<Effect>)
        ensures
            went_into(*old(self), *final(self), fx@),
    {
        let entered = self.state.cd_into();
        let fx = if entered {
            vec![Effect::LoadDir, Effect::RefreshGit]
        } else {
            vec![Effect::RefreshGit]
        };
        assert(fx@ =~= reload_fx(entered));
        fx
    }

    /// Runs a menu or palette action: dialogs, undo and redo in the editor,
    /// the view toggles, the help windows and the palette take effect here;
    /// the rest comes back as effects (`Quit` among them).
    pub fn execute_action(&mut self, action: MenuAction) -> (fx: Vec<Effect>)
        ensures
            action_applied(*old(self), *final(self), action, fx@),
            old(self).inv() ==> final(self).inv(),
    {
        match action {
            MenuAction::NewFile => {
                self.dialog.show(DialogType::NewFile);
                Vec::new()
            },
            MenuAction::NewFolder => {
                self.dialog.show(DialogType::NewFolder);
                Vec::new()
            },
            MenuAction::Rename => {
                self.start_rename();
                Vec::new()
            },
            MenuAction::Delete => {
                if self.state.selected_paths.len() > 0 || self.state.selected_entry().is_some() {
                    self.dialog.show(DialogType::Delete);
                    self.dialog.input = String::new();
                }
                Vec::new()
            },
            MenuAction::Quit => {
                let fx = vec![Effect::Quit];
                assert(fx@ =~= seq![Effect::Quit]);
                fx
            },
            MenuAction::Undo => {
                if self.editor.active {
                    self.editor.undo();
                }
                Vec::new()
            },
            MenuAction::Redo => {
                if self.editor.active {
                    self.editor.redo();
                }
                Vec::new()
            },
            MenuAction::ToggleHidden => self.toggle_hidden(),
            MenuAction::TogglePreview => {
                self.toggle_preview();
                Vec::new()
            },
            MenuAction::CycleSort => {
                self.cycle_sort();
                Vec::new()
            },
            MenuAction::CycleTheme => {
                let fx = vec![Effect::CycleTheme];
                assert(fx@ =~= seq![Effect::CycleTheme]);
                fx
            },
            MenuAction::Refresh => {
                let fx = vec![Effect::LoadDir, Effect::RefreshGit];
                assert(fx@ =~= reload_fx(true));
                fx
            },
            MenuAction::OpenEditor => self.open_editor(),
            MenuAction::GoUp => self.go_up(),
            MenuAction::ShowKeybindings => {
                self.show_keybindings = true;
                Vec::new()
            },
            MenuAction::ShowAbout => {
                self.show_about = true;
                Vec::new()
            },
            MenuAction::OpenCommandPalette => {
                self.command_palette.open();
                Vec::new()
            },
        }
    }

    fn handle_list_char(&mut self, c: char, ctrl: bool) -> (fx: Vec<Effect>)
        requires
            old(self).inv(),
        ensures
            final(self).inv(),
            list_char_applied(*old(self), *final(self), c, ctrl, fx@),
    {
        if c == ' ' {
            self.state.toggle_selection();
            Vec::new()
        } else if c == 'e' {
            self.open_editor()
        } else if !ctrl {
            if c == 'o' {
                self.open_external()
            } else {
                Vec::new()
            }
        } else if c == 'p' {
            self.command_palette.open();
            Vec::new()
        } else if c == 'f' {
            self.open_file_search();
            Vec::new()
        } else if c == 'g' {
            self.open_grep_search()
        } else if c == 'j' {
            self.open_bookmark_search();
            Vec::new()
        } else if c == 'd' {
            self.state.show_git_diff = !self.state.show_git_diff;
            Vec::new()
        } else if c == 'i' {
            self.toggle_dir_size()
        } else if c == 'b' {
            self.toggle_bookmark()
        } else if c == 's' {
            self.save_editor()
        } else if c == 'q' {
            self.close_editor();
            Vec::new()
        } else if c == 'n' {
            self.dialog.show(DialogType::NewFile);
            Vec::new()
        } else if c == 'r' {
            self.start_rename();
            Vec::new()
        } else if c == 't' {
            let fx = vec![Effect::CycleTheme];
            assert(fx@ =~= seq![Effect::CycleTheme]);
            fx
        } else if c == 'o' {
            self.cycle_sort();
            Vec::new()
        } else if c == 'h' {
            self.toggle_hidden()
        } else if c == 'c' {
            self.copy_selection();
            Vec::new()
        } else if c == 'x' {
            self.cut_selection();
            Vec::new()
        } else if c == 'v' {
            self.paste()
        } else {
            Vec::new()
        }
    }

    fn last_row(&self) -> (r: usize)
        ensures
            r == last_row(self.state),
    {
        if has_parent(self.state.cwd.as_str()) {
            self.state.entries.len()
        } else if self.state.entries.len() > 0 {
            self.state.entries.len() - 1
        } else {
            0
        }
    }

    #[verifier::rlimit(40)]
    fn handle_list_key(&mut self, key: KeyEvent) -> (fx: Vec<Effect>)
        requires
            old(self).inv(),
        ensures
            final(self).inv(),
            list_key_applied(*old(self), *final(self), key, fx@),
    {
        match key.code {
            KeyCode::F(n) => {
                if n == 10 {
                    self.menu_bar.open(0);
                    Vec::new()
                } else if n == 5 {
                    let fx = vec![Effect::LoadDir, Effect::RefreshGit];
                    assert(fx@ =~= reload_fx(true));
                    fx
                } else {
                    Vec::new()
                }
            },
            KeyCode::Char(c) => self.handle_list_char(c, key.ctrl),
            KeyCode::Up => {
                if self.state.selected > 0 {
                    self.state.selected = self.state.selected - 1;
                }
                Vec::new()
            },
            KeyCode::Down => {
                if self.state.selected < self.last_row() {
                    self.state.selected = self.state.selected + 1;
                }
                Vec::new()
            },
            KeyCode::Enter => {
                if self.state.is_parent_selected() {
                    self.go_up()
                } else {
                    self.go_into()
                }
            },
            KeyCode::Left => self.go_up(),
            KeyCode::BackTab => self.go_up(),
            KeyCode::Backspace => self.go_up(),
            KeyCode::Tab => {
                self.toggle_preview();
                Vec::new()
            },
            KeyCode::Delete => {
                if self.state.selected_entry().is_some() {
                    self.dialog.show(DialogType::Delete);
                    self.dialog.input = String::new();
                }
                Vec::new()
            },
            KeyCode::Esc => {
                if self.state.selected_paths.len() == 0 {
                    self.cancel_dialog();
                } else {
                    self.state.clear_selection();
                }
                Vec::new()
            },
            _ => Vec::new(),
        }
    }

    /// Handles a key press and returns the work it asks for, in order. The
    /// open command palette takes the key first, then the about and
    /// keybindings windows (Esc or Enter closes them), an open menu, the
    /// editor, the dialog, and last the file list.
    pub fn handle_key_event(&mut self, key: KeyEvent) -> (fx: Vec<Effect>)
        requires
            old(self).inv(),
            old(self).key_ok(key),
        ensures
            final(self).inv(),
            key_handled(*old(self), *final(self), key, fx@),
    {
        if self.command_palette.active {
            let r = self.command_palette.handle_key_event(key);
            let ghost mid = *self;
            assert(palette_stepped(old(self).command_palette, key, mid.command_palette, r));
            match r {
                CommandPaletteResult::Action(a) => self.execute_action(a),
                CommandPaletteResult::Jump(path, d) => self.jump_to(path, d),
                _ => Vec::new(),
            }
        } else if self.show_about {
            if key.code == KeyCode::Esc || key.code == KeyCode::Enter {
                self.show_about = false;
            }
            Vec::new()
        } else if self.show_keybindings {
            if key.code == KeyCode::Esc || key.code == KeyCode::Enter {
                self.show_keybindings = false;
            }
            Vec::new()
        } else if self.menu_bar.is_open() {
            proof {
                lemma_fits_can_handle_key(self.menu_bar, key);
            }
            match self.menu_bar.handle_key_event(key) {
                Some(a) => self.execute_action(a),
                None => Vec::new(),
            }
        } else if self.editor.active {
            self.handle_editor_key(key)
        } else if self.dialog.dialog_type != DialogType::Inactive {
            self.handle_dialog_key(key)
        } else {
            self.handle_list_key(key)
        }
    }

    fn click_title(&mut self, col: u16)
        requires
            old(self).inv(),
            old(self).menu_bar.open_index is Some,
        ensures
            final(self).inv(),
            *final(self) == (App {
                menu_bar: match title_hit(old(self).menu_bar.menus@, 0, col as int) {
                    Some(i) => if old(self).menu_bar.open_index == Some(i as usize) {
                        old(self).menu_bar.closed()
                    } else {
                        menu_opened(old(self).menu_bar, i)
                    },
                    None => old(self).menu_bar.closed(),
                },
                ..*old(self)
            }),
    {
        proof {
            lemma_title_hit_range(self.menu_bar.menus@, 0, col as int);
        }
        match self.menu_bar.title_at(col) {
            Some(i) => {
                let same = match self.menu_bar.open_index {
                    Some(j) => j == i,
                    None => false,
                };
                if same {
                    self.menu_bar.close();
                } else {
                    self.menu_bar.open(i);
                }
            },
            None => {
                self.menu_bar.close();
            },
        }
    }

    fn click_list(&mut self, row: u16)
        ensures
            *final(self) == (match list_row_at(old(self).state, row as int) {
                Some(k) => App { state: AppState { selected: k as usize, ..old(self).state }, ..*old(self) },
                None => *old(self),
            }),
    {
        let has_parent = has_parent(self.state.cwd.as_str());
        let file_list_start: u16 = 5;
        let base_offset: usize = if has_parent { 1 } else { 0 };
        let n = self.state.entries.len();
        let shown: usize = if n < 20 { n } else { 20 };
        let file_list_end: u16 = file_list_start + base_offset as u16 + shown as u16;
        if row >= file_list_start && row < file_list_end {
            let visual_idx = (row - file_list_start) as usize;
            if visual_idx >= base_offset {
                let entry_idx = visual_idx - base_offset;
                if entry_idx < n {
                    self.state.selected = visual_idx;
                }
            } else if has_parent && visual_idx == 0 {
                self.state.selected = 0;
            }
        }
    }

    /// Handles a mouse event: nothing while the editor, the palette or a help
    /// window is open. With a menu open, a click on a title opens that menu
    /// (or closes it when it is the open one), a click in the dropdown runs
    /// its item, and any other click closes the menu. Otherwise the wheel
    /// moves the cursor, a click on a title opens its menu, and a click on a
    /// row of the file list puts the cursor there.
    pub fn handle_mouse_event(&mut self, ev: MouseEvent) -> (fx: Vec<Effect>)
        requires
            old(self).inv(),
        ensures
            final(self).inv(),
            mouse_handled(*old(self), *final(self), ev, fx@),
    {
        if self.editor.active || self.command_palette.active || self.show_about || self.show_keybindings {
            return Vec::new();
        }
        if self.menu_bar.is_open() {
            if ev.kind == MouseKind::Down {
                if ev.row == 0 {
                    self.click_title(ev.column);
                    return Vec::new();
                }
                proof {
                    lemma_fits_can_click(self.menu_bar);
                }
                match self.menu_bar.handle_dropdown_click(ev.row, ev.column) {
                    Some(a) => {
                        return self.execute_action(a);
                    },
                    None => {
                        self.menu_bar.close();
                    },
                }
            }
            return Vec::new();
        }
        match ev.kind {
            MouseKind::ScrollUp => {
                if self.state.selected > 0 {
                    self.state.selected = self.state.selected - 1;
                }
            },
            MouseKind::ScrollDown => {
                if self.state.selected < self.last_row() {
                    self.state.selected = self.state.selected + 1;
                }
            },
            MouseKind::Down => {
                if ev.row == 0 {
                    proof {
                        lemma_title_hit_range(self.menu_bar.menus@, 0, ev.column as int);
                    }
                    if let Some(i) = self.menu_bar.title_at(ev.column) {
                        self.menu_bar.open(i);
                    }
                } else {
                    self.click_list(ev.row);
                }
            },
            MouseKind::Other => {},
        }
        Vec::new()
    }
}

/// Up in the editor goes to the line above and Down to the line below (when
/// there is one): the column is kept where that line is long enough, and
/// cut to the line's end (in bytes) where it is shorter. The text is not
/// touched and nothing is asked of the caller.
pub proof fn law_editor_vertical_moves_keep_column(old: App, new: App, key: KeyEvent, fx: Seq<Effect>)
    requires
        editor_key_applied(old, new, key, fx),
        key.code == KeyCode::Up || key.code == KeyCode::Down,
    ensures
        new.editor@.lines == old.editor@.lines,
        fx.len() == 0,
        ({
            let cl = old.editor@.cursor_line;
            let col = old.editor@.cursor_col;
            let target = if key.code == KeyCode::Up { cl - 1 } else { cl + 1 };
            let moves = if key.code == KeyCode::Up { cl > 0 } else { cl + 1 < old.editor@.lines.len() };
            let room = crate::text::utf8_len(crate::editor::line_or_empty(old.editor@.lines, target)) as int;
            if moves {
                &&& new.editor@.cursor_line == target
                &&& col <= room ==> new.editor@.cursor_col == col
                &&& col > room ==> new.editor@.cursor_col == room
            } else {
                new.editor@.cursor_line == cl && new.editor@.cursor_col == col
            }
        }),
{
}

/// Home goes to the start of the cursor line and End to its end (its length
/// in bytes); Left and Right move one byte, wrapping to the end of the line
/// above or the start of the line below at the line's ends. The text is not
/// touched.
pub proof fn law_editor_horizontal_moves(old: App, new: App, key: KeyEvent, fx: Seq<Effect>)
    requires
        editor_key_applied(old, new, key, fx),
    ensures
        ({
            let v = old.editor@;
            let w = new.editor@;
            let cl = v.cursor_line;
            let col = v.cursor_col;
            let len_here = crate::text::utf8_len(crate::editor::line_or_empty(v.lines, cl)) as int;
            &&& key.code == KeyCode::Home ==> w.cursor_line == cl && w.cursor_col == 0 && w.lines == v.lines
            &&& key.code == KeyCode::End ==> w.cursor_line == cl && w.cursor_col == len_here && w.lines == v.lines
            &&& key.code == KeyCode::Left && col > 0 ==> w.cursor_line == cl && w.cursor_col == col - 1
            &&& key.code == KeyCode::Left && col == 0 && cl > 0 ==> w.cursor_line == cl - 1 && w.cursor_col
                == crate::text::utf8_len(crate::editor::line_or_empty(v.lines, cl - 1))
            &&& key.code == KeyCode::Right && col < len_here ==> w.cursor_line == cl && w.cursor_col == col + 1
            &&& (key.code == KeyCode::Left || key.code == KeyCode::Right) ==> w.lines == v.lines && fx.len() == 0
        }),
{
}

/// Confirming a New File dialog with a name asks for exactly one new empty
/// file, and a New Folder dialog for exactly one new directory, at the
/// current directory joined with the name; without a name nothing is asked.
/// The explorer itself does not change until the outcome comes back.
pub proof fn law_confirm_creates_what_the_dialog_names(old: App, new: App, fx: Seq<Effect>)
    requires
        dialog_confirmed(old, new, fx),
        old.dialog.dialog_type == DialogType::NewFile || old.dialog.dialog_type == DialogType::NewFolder,
    ensures
        new == old,
        old.dialog.input@.len() == 0 ==> fx.len() == 0,
        old.dialog.input@.len() > 0 ==> fx.len() == 1,
        old.dialog.input@.len() > 0 && old.dialog.dialog_type == DialogType::NewFolder ==> (fx[0] matches Effect::CreateFolder(p)
            && p@ == joined(old.state.cwd@, old.dialog.input@)),
        old.dialog.input@.len() > 0 && old.dialog.dialog_type == DialogType::NewFile ==> (fx[0] matches Effect::CreateFile(p)
            && p@ == joined(old.state.cwd@, old.dialog.input@)),
        forall|i: int| 0 <= i < fx.len() ==> !(#[trigger] fx[i] is CreateFile && old.dialog.dialog_type == DialogType::NewFolder),
        forall|i: int| 0 <= i < fx.len() ==> !(#[trigger] fx[i] is CreateFolder && old.dialog.dialog_type == DialogType::NewFile),
{
}

/// With nothing marked, copy, cut and Delete take the entry under the cursor
/// alone (nothing on the `..` row or past the entries).
pub proof fn law_unmarked_takes_entry_under_cursor(old: App, new: App, cut: bool)
    requires
        old.state.selected_paths@.len() == 0,
        put_on_clipboard(old, new, cut),
    ensures
        0 <= old.state.entry_index() < old.state.entries@.len() ==> new.clipboard@.len() == 1
            && new.clipboard@[0]@ == old.state.entries@[old.state.entry_index()].path@,
        !(0 <= old.state.entry_index() < old.state.entries@.len()) ==> new.clipboard@.len() == 0,
{
    assert(new.clipboard.deep_view().len() == new.clipboard@.len());
    if new.clipboard@.len() > 0 {
        assert(new.clipboard.deep_view()[0] == new.clipboard@[0]@);
    }
}

/// Confirming a Rename dialog with a name asks to rename the entry under the
/// cursor to the current directory joined with the name, and nothing else.
pub proof fn law_rename_moves_the_entry_under_cursor(old: App, new: App, fx: Seq<Effect>)
    requires
        dialog_confirmed(old, new, fx),
        old.dialog.dialog_type == DialogType::Rename,
        old.dialog.input@.len() > 0,
        0 <= old.state.entry_index() < old.state.entries@.len(),
    ensures
        new == old,
        fx.len() == 1,
        fx[0] matches Effect::RenamePath(from, to) && from@ == old.state.entries@[old.state.entry_index()].path@
            && to@ == joined(old.state.cwd@, old.dialog.input@),
{
}

/// With paths marked, copy and cut put every marked path on the clipboard,
/// in the order they were marked, and nothing else; Delete asks to delete
/// exactly those paths.
pub proof fn law_marked_paths_are_all_taken(old: App, new: App, cut: bool, fx: Seq<Effect>, after_delete: App)
    requires
        old.state.selected_paths@.len() > 0,
        put_on_clipboard(old, new, cut),
        delete_confirmed(old, after_delete, fx),
    ensures
        new.clipboard@.len() == old.state.selected_paths@.len(),
        forall|i: int| 0 <= i < new.clipboard@.len() ==> (#[trigger] new.clipboard@[i])@ == old.state.selected_paths@[i]@,
        new.clipboard_cut == cut,
        fx[0] matches Effect::DeletePaths(ps) && ps@.len() == old.state.selected_paths@.len() && forall|i: int|
            0 <= i < ps@.len() ==> (#[trigger] ps@[i])@ == old.state.selected_paths@[i]@,
        after_delete.state.selected_paths@.len() == 0,
{
    let m = old.state.selected_paths;
    assert(new.clipboard.deep_view() == m.deep_view());
    assert(new.clipboard.deep_view().len() == new.clipboard@.len());
    assert forall|i: int| 0 <= i < new.clipboard@.len() implies (#[trigger] new.clipboard@[i])@ == m@[i]@ by {
        assert(new.clipboard.deep_view()[i] == new.clipboard@[i]@);
        assert(m.deep_view()[i] == m@[i]@);
    }
    match fx[0] {
        Effect::DeletePaths(ps) => {
            assert(ps.deep_view() == m.deep_view());
            assert(ps.deep_view().len() == ps@.len());
            assert forall|i: int| 0 <= i < ps@.len() implies (#[trigger] ps@[i])@ == m@[i]@ by {
                assert(ps.deep_view()[i] == ps@[i]@);
                assert(m.deep_view()[i] == m@[i]@);
            }
        },
        _ => {},
    }
}

/// Showing or hiding hidden files, the preview pane, directory sizes or the
/// git diff twice gives back the explorer as it was.
pub proof fn law_view_toggles_undo_themselves(a: App, b: App, c: App)
    requires
        a.settings_agree(),
    ensures
        hidden_toggled(a, b) && hidden_toggled(b, c) ==> c == a,
        dir_size_toggled(a, b) && dir_size_toggled(b, c) ==> c == a,
        preview_toggled(a, b) && preview_toggled(b, c) ==> c == a,
{
}

proof fn lemma_filter_keeps_all(s: Seq<String>, key: Seq<Seq<char>>)
    requires
        forall|i: int| 0 <= i < s.len() ==> components_of(#[trigger] s[i]@) != key,
    ensures
        s.filter(other_path(key)) == s,
    decreases s.len(),
{
    if s.len() > 0 {
        lemma_filter_keeps_all(s.drop_last(), key);
        assert(s.drop_last().push(s.last()) =~= s);
        s.drop_last().lemma_filter_push(s.last(), other_path(key));
    } else {
        assert(s.filter(other_path(key)) =~= s);
    }
}

/// Bookmarking a directory that is not bookmarked and toggling the bookmark
/// again gives back the bookmarks.
pub proof fn law_bookmark_toggle_undoes_itself(a: App, b: App, c: App)
    requires
        bookmark_toggled(a, b),
        bookmark_toggled(b, c),
        forall|i: int|
            0 <= i < a.config.bookmarks@.len() ==> components_of(#[trigger] a.config.bookmarks@[i]@)
                != components_of(a.state.cwd@),
    ensures
        c.config.bookmarks@ == a.config.bookmarks@,
{
    let key = components_of(a.state.cwd@);
    let before = a.config.bookmarks@;
    let mid = b.config.bookmarks@;
    assert(b.state == a.state);
    assert(mid == before.push(mid.last()));
    assert(components_of(mid[mid.len() - 1]@) == key);
    lemma_filter_keeps_all(before, key);
    before.lemma_filter_push(mid.last(), other_path(key));
}

/// Cycling the sort order three times comes back to the same order.
pub proof fn law_sort_cycle(o: SortOrder)
    ensures
        o.next_order().next_order().next_order() == o,
{
}

impl SortOrder {
    /// The order that `next` gives.
    pub open spec fn next_order(self) -> SortOrder {
        match self {
            SortOrder::Name => SortOrder::Size,
            SortOrder::Size => SortOrder::Modified,
            SortOrder::Modified => SortOrder::Name,
        }
    }
}

} // verus!
