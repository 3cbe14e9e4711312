use terminal_file_explorer::dialog::{DialogState, DialogType};
use terminal_file_explorer::git::{FileGitStatus, GitFileStatus, GitStatus};
use terminal_file_explorer::state::{AppState, FileEntry, SortOrder};
use terminal_file_explorer::ui::{
    diff_line_kind, editor_title, extension_icon, file_icon, row_tint, title_text, DiffLineKind, Dialog, FileList, Preview,
    RowTint, StatusBar,
};

fn entry(name: &str, is_dir: bool, size: u64) -> FileEntry {
    FileEntry { name: name.to_string(), path: format!("/p/{}", name), is_dir, size, modified: None }
}

fn state() -> AppState {
    let mut s = AppState::new("/p".to_string());
    s.load_dir(vec![entry("src", true, 0), entry("main.rs", false, 2_097_152)]);
    s
}

#[test]
fn icons_by_extension() {
    assert_eq!(file_icon("src", true), "\u{1F4C1} ");
    assert_eq!(file_icon("main.RS", false), "\u{1E916} ");
    assert_eq!(file_icon("a.tar.GZ", false), "\u{1F4E6} ");
    assert_eq!(file_icon("logo.svg", false), "\u{1F5BC} ");
    assert_eq!(file_icon("Cargo.lock", false), "\u{1F512} ");
    assert_eq!(file_icon("README", false), "\u{1F4C4} ");
    assert_eq!(file_icon("x.pdf", false), "\u{1F4C4} ");
    assert_eq!(file_icon("notes.md", false), "\u{1F4D6} ");
}

#[test]
fn tints_by_git_status() {
    assert_eq!(row_tint(FileGitStatus::StagedNew), RowTint::Staged);
    assert_eq!(row_tint(FileGitStatus::StagedDeleted), RowTint::Staged);
    assert_eq!(row_tint(FileGitStatus::Modified), RowTint::Changed);
    assert_eq!(row_tint(FileGitStatus::Copied), RowTint::Changed);
    assert_eq!(row_tint(FileGitStatus::Untracked), RowTint::Untracked);
    assert_eq!(row_tint(FileGitStatus::Added), RowTint::Plain);
    assert_eq!(row_tint(FileGitStatus::Unmodified), RowTint::Plain);
}

#[test]
fn title_with_and_without_git() {
    let g = GitStatus { branch: "main".to_string(), files: Vec::new() };
    assert_eq!(title_text("/p", Some(&g)), " /p | git:main ");
    assert_eq!(title_text("/p", None), " /p ");
}

#[test]
fn small_titles_and_diff_kinds() {
    assert_eq!(editor_title(true), " Editor * ");
    assert_eq!(editor_title(false), " Editor ");
    assert_eq!(diff_line_kind("+added"), DiffLineKind::Added);
    assert_eq!(diff_line_kind("-gone"), DiffLineKind::Removed);
    assert_eq!(diff_line_kind("@@ -1 +1 @@"), DiffLineKind::Hunk);
    assert_eq!(diff_line_kind(" same"), DiffLineKind::Context);
    assert_eq!(diff_line_kind(""), DiffLineKind::Context);
    let mut s = state();
    assert_eq!(Preview::new(&s).title(), " Preview ");
    s.show_git_diff = true;
    assert_eq!(Preview::new(&s).title(), " Git Diff ");
}

#[test]
fn file_list_rows_are_padded() {
    let mut s = state();
    s.selected_paths = vec!["/p//main.rs".to_string()];
    let list = FileList::new(&s, None);
    let row = list.entry_row(1);
    let expected = format!("[*] \u{1E916}  {:<34} {:>8} --", "main.rs", "2.0M");
    assert_eq!(row, expected);
    let row = list.entry_row(0);
    let expected = format!("    \u{1F4C1}  {:<34} {:>8} --", "src", "<1M");
    assert_eq!(row, expected);
    let long = "n".repeat(40);
    let mut s2 = AppState::new("/p".to_string());
    s2.load_dir(vec![entry(&long, false, 1)]);
    let row = FileList::new(&s2, None).entry_row(0);
    assert_eq!(row, format!("    \u{1F4C4}  {} {:>8} --", long, "<1M"));
    assert_eq!(list.entry_tint(1), RowTint::Plain);
}

#[test]
fn file_list_tints_from_git() {
    let s = state();
    let g = GitStatus {
        branch: "main".to_string(),
        files: vec![GitFileStatus { path: "x/main.rs".to_string(), status: FileGitStatus::Untracked }],
    };
    let list = FileList::new(&s, Some(&g));
    assert_eq!(list.entry_tint(1), RowTint::Untracked);
    assert_eq!(list.entry_tint(0), RowTint::Plain);
}

#[test]
fn status_bar_text() {
    let mut s = state();
    s.selected = 2;
    let text = StatusBar::new(&s, "nord").text();
    assert_eq!(
        text,
        "[main.rs | 2.0M | --] | Hidden:hidden(Ctrl+H) | Preview:OFF(Tab) | Sort:Name | o:Open | Theme:nord | F10:Menu | Ctrl+P:Cmd | Ctrl+F:Search | Ctrl+G:Grep | Ctrl+D:Diff"
    );
    s.selected_paths = vec!["/p/src".to_string(), "/p/main.rs".to_string()];
    s.show_hidden = true;
    s.preview_open = true;
    s.sort_order = SortOrder::Modified;
    let text = StatusBar::new(&s, "dracula").text();
    assert!(text.starts_with("[2 selected] | Hidden:visible(Ctrl+H) | Preview:ON(Tab) | Sort:Date | o:Open | Theme:dracula"));
    s.selected_paths.clear();
    s.selected = 7;
    let text = StatusBar::new(&s, "x").text();
    assert!(text.starts_with("[No selection] |"));
}

#[test]
fn dialog_texts() {
    let mut d = DialogState::default();
    assert_eq!(Dialog::new(&d).title(), None);
    assert_eq!(Dialog::new(&d).body(), None);
    d.error = Some("late".to_string());
    assert_eq!(Dialog::new(&d).error_line(), None);
    d.show(DialogType::NewFile);
    d.input = "a.txt".to_string();
    assert_eq!(Dialog::new(&d).title(), Some(" New File ".to_string()));
    assert_eq!(
        Dialog::new(&d).body(),
        Some("Enter filename:\n\n> a.txt\n\n[Enter] Confirm  [Esc] Cancel".to_string())
    );
    assert_eq!(Dialog::new(&d).error_line(), None);
    d.error = Some("exists".to_string());
    assert_eq!(Dialog::new(&d).error_line(), Some("ERROR: exists".to_string()));
    d.show(DialogType::Delete);
    assert_eq!(Dialog::new(&d).title(), Some(" Delete ".to_string()));
    assert_eq!(
        Dialog::new(&d).body(),
        Some("Confirm deletion:\n\n\nPress 'y' to confirm, 'n' or 'Esc' to cancel".to_string())
    );
    d.show(DialogType::NewFolder);
    assert_eq!(Dialog::new(&d).title(), Some(" New Folder ".to_string()));
    d.show(DialogType::Rename);
    assert!(Dialog::new(&d).body().unwrap().starts_with("Enter new name:"));
}

use terminal_file_explorer::ui::{clip_line, editor_line, Piece, Rgb, StyledText};

fn run(t: &str, r: u8) -> StyledText {
    StyledText { text: t.to_string(), color: Rgb { r, g: 0, b: 0 } }
}

fn shown(pieces: &[Piece]) -> Vec<String> {
    pieces
        .iter()
        .map(|p| match p {
            Piece::Text(t, c) => format!("{}:{}", t, c.r),
            Piece::Cursor => "|".to_string(),
        })
        .collect()
}

#[test]
fn preview_lines_are_cut_to_the_width() {
    let runs = vec![run("hello", 1), run("world", 2)];
    let cut = clip_line(&runs, 7).unwrap();
    assert_eq!(cut.len(), 2);
    assert_eq!((cut[0].text.as_str(), cut[0].color.r), ("hello", 1));
    assert_eq!((cut[1].text.as_str(), cut[1].color.r), ("wo", 2));
    assert_eq!(clip_line(&runs, 5).unwrap().len(), 1);
    assert_eq!(clip_line(&runs, 0).unwrap().len(), 0);
    assert_eq!(clip_line(&runs, 100).unwrap().len(), 2);
    assert_eq!(clip_line(&vec![run("a\u{e9}", 1)], 3).unwrap()[0].text, "a\u{e9}");
    assert!(clip_line(&vec![run("\u{e9}", 1)], 1).is_none());
}

#[test]
fn editor_lines_show_the_cursor() {
    let runs = vec![run("ab", 1), run("cd", 2)];
    assert_eq!(shown(&editor_line(&runs, 10, None).unwrap()), vec!["ab:1", "cd:2"]);
    assert_eq!(shown(&editor_line(&runs, 10, Some(1)).unwrap()), vec!["a:1", "|", "b:1", "cd:2"]);
    assert_eq!(shown(&editor_line(&runs, 10, Some(2)).unwrap()), vec!["a:1", "b:1", "|", "|", "c:2", "d:2"]);
    assert_eq!(shown(&editor_line(&runs, 10, Some(9)).unwrap()), vec!["ab:1", "cd:2", "|"]);
    assert_eq!(shown(&editor_line(&runs, 5, None).unwrap()), vec!["ab:1", "c:2"]);
    assert_eq!(shown(&editor_line(&runs, 1, Some(0)).unwrap()), vec!["|"]);
    assert!(editor_line(&vec![run("\u{e9}", 1)], 3, None).is_none());
    assert_eq!(shown(&editor_line(&vec![run("\u{e9}x", 1)], 4, None).unwrap()), vec!["\u{e9}:1"]);
}

#[test]
fn icons_of_lowercase_extensions() {
    assert_eq!(extension_icon("py"), "\u{1F40D} ");
    assert_eq!(extension_icon("ts"), "\u{1F4DC} ");
    assert_eq!(extension_icon("hpp"), "\u{1F4BB} ");
    assert_eq!(extension_icon("yml"), "\u{1F4DD} ");
    assert_eq!(extension_icon("ps1"), "\u{1F4A0} ");
    assert_eq!(extension_icon("less"), "\u{1F3A8} ");
    assert_eq!(extension_icon("htm"), "\u{1F310} ");
    assert_eq!(extension_icon("go"), "\u{1F981} ");
    assert_eq!(extension_icon("java"), "\u{2615} ");
    assert_eq!(extension_icon("flac"), "\u{1F3B5} ");
    assert_eq!(extension_icon("RS"), "\u{1F4C4} ");
}

use terminal_file_explorer::ui::{highlight_lines, preview_lines, preview_rows, HighlightedPreview};

fn joined_text(line: &[StyledText]) -> String {
    line.iter().map(|r| r.text.as_str()).collect()
}

#[test]
fn highlighting_keeps_the_text_of_each_line() {
    let lines = highlight_lines("rs", "fn main() {\n    let x = 1;\n}");
    assert_eq!(lines.len(), 3);
    assert_eq!(joined_text(&lines[0]), "fn main() {");
    assert_eq!(joined_text(&lines[1]), "    let x = 1;");
    assert_eq!(joined_text(&lines[2]), "}");
    assert!(lines[0].len() > 1);
}

#[test]
fn preview_shows_the_first_lines_cut_to_width() {
    match preview_lines("txt", Some("abc\ndef\nghi".to_string()), 2, 2) {
        HighlightedPreview::Lines(v) => {
            assert_eq!(v.len(), 2);
            assert_eq!(joined_text(&v[0]), "ab");
            assert_eq!(joined_text(&v[1]), "de");
        },
        other => panic!("unexpected {:?}", other),
    }
    assert!(matches!(preview_lines("txt", None, 10, 10), HighlightedPreview::Unreadable));
    assert!(matches!(preview_lines("txt", Some("\u{e9}".to_string()), 1, 10), HighlightedPreview::CutInsideChar));
    let rows = vec![vec![run("hello", 1)], vec![run("x", 2)], vec![run("y", 3)]];
    let cut = preview_rows(&rows, 3, 2).unwrap();
    assert_eq!(cut.len(), 2);
    assert_eq!(cut[0][0].text, "hel");
    assert_eq!(cut[1][0].text, "x");
    assert!(preview_rows(&vec![vec![run("\u{e9}", 1)]], 1, 5).is_none());
    assert_eq!(preview_rows(&rows, 3, 0).unwrap().len(), 0);
}
