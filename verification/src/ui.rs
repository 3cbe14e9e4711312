//! The texts the screen shows: the title line, the rows of the file list with
//! their icons and git tints, the status bar, the preview and editor titles,
//! the colour class of a diff line, and the dialog. Colours and layout are
//! left to the caller.
use vstd::prelude::*;
use crate::dialog::{DialogState, DialogType};
use crate::git::{FileGitStatus, GitStatus, status_for};
use crate::paths::{components_of, same_path};
use crate::preview::{after_last_dot, after_last_dot_chars, is};
use crate::state::{AppState, FileEntry, SortOrder, size_text};
use crate::text::{
    byte_len, chars_of, decimal, find_char_offset, is_boundary, lowercase, prefix_at_byte, push_all, push_decimal,
    string_from_chars, to_lowercase, utf8_len,
};

verus! {

/// `n` spaces.
pub open spec fn spaces(n: int) -> Seq<char> {
    Seq::new(n as nat, |i: int| ' ')
}

/// `s` followed by spaces up to `w` characters (`{:<w}`).
pub open spec fn pad_right(s: Seq<char>, w: int) -> Seq<char> {
    if s.len() >= w {
        s
    } else {
        s + spaces(w - s.len())
    }
}

/// Spaces up to `w` characters, then `s` (`{:>w}`).
pub open spec fn pad_left(s: Seq<char>, w: int) -> Seq<char> {
    if s.len() >= w {
        s
    } else {
        spaces(w - s.len()) + s
    }
}

fn push_spaces(out: &mut Vec<char>, n: usize)
    ensures
        final(out)@ == old(out)@ + spaces(n as int),
{
    let ghost start = out@;
    let mut i: usize = 0;
    while i < n
        invariant
            i <= n,
            out@ == start + spaces(i as int),
        decreases n - i,
    {
        out.push(' ');
        assert(out@ =~= start + spaces(i + 1));
        i = i + 1;
    }
}

fn push_str(out: &mut Vec<char>, s: &str)
    ensures
        final(out)@ == old(out)@ + s@,
{
    push_all(out, &chars_of(s));
}

fn push_padded_right(out: &mut Vec<char>, s: &Vec<char>, w: usize)
    ensures
        final(out)@ == old(out)@ + pad_right(s@, w as int),
{
    let ghost start = out@;
    push_all(out, s);
    if s.len() < w {
        push_spaces(out, w - s.len());
        assert(out@ =~= start + pad_right(s@, w as int));
    }
}

fn push_padded_left(out: &mut Vec<char>, s: &Vec<char>, w: usize)
    ensures
        final(out)@ == old(out)@ + pad_left(s@, w as int),
{
    let ghost start = out@;
    if s.len() < w {
        push_spaces(out, w - s.len());
    }
    push_all(out, s);
    assert(out@ =~= start + pad_left(s@, w as int));
}

/// The icon before the name of a file with the lowercase extension `e`.
pub open spec fn icon_for_ext(e: Seq<char>) -> Seq<char> {
    if e == "rs"@ {
        "\u{1E916} "@
    } else if e == "py"@ {
        "\u{1F40D} "@
    } else if e == "js"@ || e == "ts"@ {
        "\u{1F4DC} "@
    } else if e == "go"@ {
        "\u{1F981} "@
    } else if e == "java"@ {
        "\u{2615} "@
    } else if e == "c"@ || e == "cpp"@ || e == "h"@ || e == "hpp"@ {
        "\u{1F4BB} "@
    } else if e == "toml"@ || e == "yaml"@ || e == "yml"@ || e == "json"@ || e == "xml"@ {
        "\u{1F4DD} "@
    } else if e == "md"@ {
        "\u{1F4D6} "@
    } else if e == "png"@ || e == "jpg"@ || e == "jpeg"@ || e == "gif"@ || e == "bmp"@ || e == "ico"@
        || e == "webp"@ || e == "svg"@ {
        "\u{1F5BC} "@
    } else if e == "mp3"@ || e == "flac"@ || e == "wav"@ || e == "ogg"@ || e == "m4a"@ || e == "aac"@ {
        "\u{1F3B5} "@
    } else if e == "zip"@ || e == "tar"@ || e == "gz"@ || e == "bz2"@ || e == "xz"@ || e == "7z"@
        || e == "rar"@ {
        "\u{1F4E6} "@
    } else if e == "sh"@ || e == "bash"@ || e == "zsh"@ || e == "bat"@ || e == "ps1"@ {
        "\u{1F4A0} "@
    } else if e == "css"@ || e == "scss"@ || e == "less"@ {
        "\u{1F3A8} "@
    } else if e == "html"@ || e == "htm"@ {
        "\u{1F310} "@
    } else if e == "lock"@ {
        "\u{1F512} "@
    } else {
        "\u{1F4C4} "@
    }
}

/// The icon before a name in the file list: a folder for directories, else
/// by the lowercase extension (the part after the last `'.'`).
pub open spec fn icon_for(name: Seq<char>, is_dir: bool) -> Seq<char> {
    if is_dir {
        "\u{1F4C1} "@
    } else {
        icon_for_ext(lowercase(after_last_dot(name)))
    }
}

/// The icon for a file with the lowercase extension `ext`.
pub fn extension_icon(ext: &str) -> (r: &'static str)
    ensures
        r@ == icon_for_ext(ext@),
{
    let e = chars_of(ext);
    if is(&e, "rs") {
        "\u{1E916} "
    } else if is(&e, "py") {
        "\u{1F40D} "
    } else if is(&e, "js") || is(&e, "ts") {
        "\u{1F4DC} "
    } else if is(&e, "go") {
        "\u{1F981} "
    } else if is(&e, "java") {
        "\u{2615} "
    } else if is(&e, "c") || is(&e, "cpp") || is(&e, "h") || is(&e, "hpp") {
        "\u{1F4BB} "
    } else if is(&e, "toml") || is(&e, "yaml") || is(&e, "yml") || is(&e, "json") || is(&e, "xml") {
        "\u{1F4DD} "
    } else if is(&e, "md") {
        "\u{1F4D6} "
    } else if is(&e, "png") || is(&e, "jpg") || is(&e, "jpeg") || is(&e, "gif") || is(&e, "bmp") || is(&e, "ico")
        || is(&e, "webp") || is(&e, "svg") {
        "\u{1F5BC} "
    } else if is(&e, "mp3") || is(&e, "flac") || is(&e, "wav") || is(&e, "ogg") || is(&e, "m4a") || is(&e, "aac") {
        "\u{1F3B5} "
    } else if is(&e, "zip") || is(&e, "tar") || is(&e, "gz") || is(&e, "bz2") || is(&e, "xz") || is(&e, "7z")
        || is(&e, "rar") {
        "\u{1F4E6} "
    } else if is(&e, "sh") || is(&e, "bash") || is(&e, "zsh") || is(&e, "bat") || is(&e, "ps1") {
        "\u{1F4A0} "
    } else if is(&e, "css") || is(&e, "scss") || is(&e, "less") {
        "\u{1F3A8} "
    } else if is(&e, "html") || is(&e, "htm") {
        "\u{1F310} "
    } else if is(&e, "lock") {
        "\u{1F512} "
    } else {
        "\u{1F4C4} "
    }
}

/// The icon for the entry `name` (see `icon_for`).
pub fn file_icon(name: &str, is_dir: bool) -> (r: &'static str)
    ensures
        r@ == icon_for(name@, is_dir),
{
    if is_dir {
        return "\u{1F4C1} ";
    }
    let ext = after_last_dot_chars(&chars_of(name));
    extension_icon(to_lowercase(string_from_chars(&ext).as_str()).as_str())
}

/// How a row of the file list is coloured by git: staged changes, unstaged
/// changes, untracked, or the plain colour of a directory or file.
#[derive(Debug, Clone, Copy, PartialEq, Eq, Structural)]
pub enum RowTint {
    Staged,
    Changed,
    Untracked,
    Plain,
}

pub open spec fn tint_of(s: FileGitStatus) -> RowTint {
    match s {
        FileGitStatus::StagedNew | FileGitStatus::StagedModified | FileGitStatus::StagedDeleted => RowTint::Staged,
        FileGitStatus::Modified | FileGitStatus::Deleted | FileGitStatus::Renamed | FileGitStatus::Copied => RowTint::Changed,
        FileGitStatus::Untracked => RowTint::Untracked,
        _ => RowTint::Plain,
    }
}

/// Rows are coloured by what git says of the file: every staged change (new,
/// modified or deleted in the index) alike, every unstaged change (modified,
/// deleted, renamed or copied) alike, untracked files on their own, and
/// everything else plain; staged and unstaged changes never share a colour.
pub proof fn law_row_tint_by_kind_of_change(s: FileGitStatus)
    ensures
        (s == FileGitStatus::StagedNew || s == FileGitStatus::StagedModified || s == FileGitStatus::StagedDeleted)
            <==> tint_of(s) == RowTint::Staged,
        (s == FileGitStatus::Modified || s == FileGitStatus::Deleted || s == FileGitStatus::Renamed || s
            == FileGitStatus::Copied) <==> tint_of(s) == RowTint::Changed,
        s == FileGitStatus::Untracked <==> tint_of(s) == RowTint::Untracked,
        (s == FileGitStatus::Unmodified || s == FileGitStatus::Added || s == FileGitStatus::Ignored) <==> tint_of(s)
            == RowTint::Plain,
{
}

/// The tint of a row with the given git status.
pub fn row_tint(status: FileGitStatus) -> (t: RowTint)
    ensures
        t == tint_of(status),
{
    match status {
        FileGitStatus::StagedNew | FileGitStatus::StagedModified | FileGitStatus::StagedDeleted => RowTint::Staged,
        FileGitStatus::Modified | FileGitStatus::Deleted | FileGitStatus::Renamed | FileGitStatus::Copied => RowTint::Changed,
        FileGitStatus::Untracked => RowTint::Untracked,
        _ => RowTint::Plain,
    }
}

/// The title line: the current directory, and the branch inside a repository.
pub open spec fn title_line(cwd: Seq<char>, git: Option<&GitStatus>) -> Seq<char> {
    match git {
        Some(g) => " "@ + cwd + " | git:"@ + g.branch@ + " "@,
        None => " "@ + cwd + " "@,
    }
}

/// The title line (see `title_line`).
pub fn title_text(cwd: &str, git_status: Option<&GitStatus>) -> (r: String)
    ensures
        r@ == title_line(cwd@, git_status),
{
    let mut out: Vec<char> = Vec::new();
    push_str(&mut out, " ");
    push_str(&mut out, cwd);
    match git_status {
        Some(g) => {
            push_str(&mut out, " | git:");
            push_str(&mut out, g.branch.as_str());
            push_str(&mut out, " ");
        },
        None => {
            push_str(&mut out, " ");
        },
    }
    assert(out@ =~= title_line(cwd@, git_status));
    string_from_chars(&out)
}

/// The editor's title, with a star while there are unsaved changes.
pub fn editor_title(modified: bool) -> (r: &'static str)
    ensures
        r@ == (if modified { " Editor * "@ } else { " Editor "@ }),
{
    if modified {
        " Editor * "
    } else {
        " Editor "
    }
}

/// How a line of a diff is coloured.
#[derive(Debug, Clone, Copy, PartialEq, Eq, Structural)]
pub enum DiffLineKind {
    Added,
    Removed,
    Hunk,
    Context,
}

pub open spec fn diff_kind(line: Seq<char>) -> DiffLineKind {
    if line.len() > 0 && line[0] == '+' {
        DiffLineKind::Added
    } else if line.len() > 0 && line[0] == '-' {
        DiffLineKind::Removed
    } else if line.len() > 0 && line[0] == '@' {
        DiffLineKind::Hunk
    } else {
        DiffLineKind::Context
    }
}

/// The kind of a diff line by its first character: `+`, `-` or `@`.
pub fn diff_line_kind(line: &str) -> (k: DiffLineKind)
    ensures
        k == diff_kind(line@),
{
    let cs = chars_of(line);
    if cs.len() > 0 && cs[0] == '+' {
        DiffLineKind::Added
    } else if cs.len() > 0 && cs[0] == '-' {
        DiffLineKind::Removed
    } else if cs.len() > 0 && cs[0] == '@' {
        DiffLineKind::Hunk
    } else {
        DiffLineKind::Context
    }
}

/// The path `p` is one of the marked paths (compared as paths).
pub open spec fn marked_path(s: AppState, p: Seq<char>) -> bool {
    exists|i: int| 0 <= i < s.selected_paths@.len() && components_of(#[trigger] s.selected_paths@[i]@) == components_of(p)
}

/// A row of the file list up to the modification time: the mark, the icon,
/// the name padded to 34 characters and the size right-aligned in 8.
pub open spec fn row_head(e: FileEntry, marked: bool) -> Seq<char> {
    (if marked { "[*] "@ } else { "    "@ }) + icon_for(e.name@, e.is_dir) + " "@ + pad_right(e.name@, 34) + " "@
        + pad_left(size_text(e.size as nat), 8) + " "@
}

/// The rows of the file list.
pub struct FileList<'a> {
    pub state: &'a AppState,
    pub git_status: Option<&'a GitStatus>,
}

impl<'a> FileList<'a> {
    /// The list of `state`'s entries, tinted by `git_status` when there is one.
    pub fn new(state: &'a AppState, git_status: Option<&'a GitStatus>) -> (f: Self)
        ensures
            f.state == state,
            f.git_status == git_status,
    {
        FileList { state, git_status }
    }

    fn is_marked(&self, path: &str) -> (r: bool)
        ensures
            r == marked_path(*self.state, path@),
    {
        let mut i: usize = 0;
        while i < self.state.selected_paths.len()
            invariant
                i <= self.state.selected_paths@.len(),
                forall|j: int| 0 <= j < i ==> components_of(#[trigger] self.state.selected_paths@[j]@) != components_of(path@),
            decreases self.state.selected_paths.len() - i,
        {
            if same_path(self.state.selected_paths[i].as_str(), path) {
                return true;
            }
            i = i + 1;
        }
        false
    }

    /// The row of entry `i`: its mark, icon, padded name and size, then its
    /// modification time (`"--"` without one).
    pub fn entry_row(&self, i: usize) -> (r: String)
        requires
            i < self.state.entries@.len(),
        ensures
            ({
                let e = self.state.entries@[i as int];
                let head = row_head(e, marked_path(*self.state, e.path@));
                &&& head.len() <= r@.len()
                &&& r@.take(head.len() as int) == head
                &&& e.modified is None ==> r@ == head + seq!['-', '-']
            }),
    {
        let e = &self.state.entries[i];
        let mut out: Vec<char> = Vec::new();
        if self.is_marked(e.path.as_str()) {
            push_str(&mut out, "[*] ");
        } else {
            push_str(&mut out, "    ");
        }
        push_str(&mut out, file_icon(e.name.as_str(), e.is_dir));
        push_str(&mut out, " ");
        push_padded_right(&mut out, &chars_of(e.name.as_str()), 34);
        push_str(&mut out, " ");
        push_padded_left(&mut out, &chars_of(e.size_formatted().as_str()), 8);
        push_str(&mut out, " ");
        let ghost head = out@;
        assert(head =~= row_head(*e, marked_path(*self.state, e.path@)));
        push_str(&mut out, e.modified_formatted().as_str());
        assert(out@.take(head.len() as int) =~= head);
        string_from_chars(&out)
    }

    /// The tint of entry `i`: by git's status of its name in a repository,
    /// plain otherwise.
    pub fn entry_tint(&self, i: usize) -> (t: RowTint)
        requires
            i < self.state.entries@.len(),
        ensures
            t == match self.git_status {
                Some(g) => tint_of(status_for(g.files@, self.state.entries@[i as int].name@)),
                None => RowTint::Plain,
            },
    {
        match self.git_status {
            Some(g) => row_tint(g.get_file_status(self.state.entries[i].name.as_str())),
            None => RowTint::Plain,
        }
    }
}

/// The sort order's name in the status bar.
pub open spec fn sort_label(o: SortOrder) -> Seq<char> {
    match o {
        SortOrder::Name => "Name"@,
        SortOrder::Size => "Size"@,
        SortOrder::Modified => "Date"@,
    }
}

/// What the status bar says of the selection: how many paths are marked,
/// else the entry under the cursor (`modified` standing for its modification
/// time as shown), else that nothing is selected.
pub open spec fn selection_info(s: AppState, modified: Seq<char>) -> Seq<char> {
    if s.selected_paths@.len() > 0 {
        decimal(s.selected_paths@.len()) + " selected"@
    } else if 0 <= s.entry_index() < s.entries@.len() {
        let e = s.entries@[s.entry_index()];
        e.name@ + " | "@ + size_text(e.size as nat) + " | "@ + modified
    } else {
        "No selection"@
    }
}

/// The status bar's text around the selection info `info`.
pub open spec fn status_line(s: AppState, theme: Seq<char>, info: Seq<char>) -> Seq<char> {
    "["@ + info + "] | Hidden:"@ + (if s.show_hidden { "visible"@ } else { "hidden"@ }) + "(Ctrl+H) | Preview:"@
        + (if s.preview_open { "ON"@ } else { "OFF"@ }) + "(Tab) | Sort:"@ + sort_label(s.sort_order)
        + " | o:Open | Theme:"@ + theme + " | F10:Menu | Ctrl+P:Cmd | Ctrl+F:Search | Ctrl+G:Grep | Ctrl+D:Diff"@
}

/// The status bar.
pub struct StatusBar<'a> {
    pub state: &'a AppState,
    pub theme_name: &'a str,
}

impl<'a> StatusBar<'a> {
    /// The status bar of `state` under the theme named `theme_name`.
    pub fn new(state: &'a AppState, theme_name: &'a str) -> (b: Self)
        ensures
            b.state == state,
            b.theme_name == theme_name,
    {
        StatusBar { state, theme_name }
    }

    fn sort_label(&self) -> (r: &'static str)
        ensures
            r@ == sort_label(self.state.sort_order),
    {
        match self.state.sort_order {
            SortOrder::Name => "Name",
            SortOrder::Size => "Size",
            SortOrder::Modified => "Date",
        }
    }

    /// The status bar's text (see `status_line` and `selection_info`); the
    /// modification time shown is `"--"` for an entry without one.
    pub fn text(&self) -> (r: String)
        ensures
            exists|m: Seq<char>|
                r@ == status_line(*self.state, self.theme_name@, #[trigger] selection_info(*self.state, m)) && (
                !(self.state.selected_paths@.len() > 0) && 0 <= self.state.entry_index()
                    < self.state.entries@.len() && self.state.entries@[self.state.entry_index()].modified is None
                    ==> m == seq!['-', '-']),
    {
        let s = self.state;
        let mut info: Vec<char> = Vec::new();
        let ghost mut m: Seq<char> = seq!['-', '-'];
        if s.selected_paths.len() > 0 {
            push_decimal(&mut info, s.selected_paths.len() as u64);
            push_str(&mut info, " selected");
        } else {
            match s.selected_entry() {
                Some(e) => {
                    push_str(&mut info, e.name.as_str());
                    push_str(&mut info, " | ");
                    push_str(&mut info, e.size_formatted().as_str());
                    push_str(&mut info, " | ");
                    let t = e.modified_formatted();
                    proof {
                        m = t@;
                    }
                    push_str(&mut info, t.as_str());
                },
                None => {
                    push_str(&mut info, "No selection");
                },
            }
        }
        assert(info@ =~= selection_info(*s, m));
        let mut out: Vec<char> = Vec::new();
        push_str(&mut out, "[");
        push_all(&mut out, &info);
        push_str(&mut out, "] | Hidden:");
        push_str(&mut out, if s.show_hidden { "visible" } else { "hidden" });
        push_str(&mut out, "(Ctrl+H) | Preview:");
        push_str(&mut out, if s.preview_open { "ON" } else { "OFF" });
        push_str(&mut out, "(Tab) | Sort:");
        push_str(&mut out, self.sort_label());
        push_str(&mut out, " | o:Open | Theme:");
        push_str(&mut out, self.theme_name);
        push_str(&mut out, " | F10:Menu | Ctrl+P:Cmd | Ctrl+F:Search | Ctrl+G:Grep | Ctrl+D:Diff");
        assert(out@ =~= status_line(*s, self.theme_name@, selection_info(*s, m)));
        string_from_chars(&out)
    }
}

/// The preview pane's title and placeholder.
pub struct Preview<'a> {
    pub state: &'a AppState,
}

impl<'a> Preview<'a> {
    /// The preview pane of `state`.
    pub fn new(state: &'a AppState) -> (p: Self)
        ensures
            p.state == state,
    {
        Preview { state }
    }

    /// `" Git Diff "` while the diff is shown, else `" Preview "`.
    pub fn title(&self) -> (r: &'static str)
        ensures
            r@ == (if self.state.show_git_diff { " Git Diff "@ } else { " Preview "@ }),
    {
        if self.state.show_git_diff {
            " Git Diff "
        } else {
            " Preview "
        }
    }
}

/// The title and instruction of each dialog (none when no dialog is shown).
pub open spec fn dialog_heading(t: DialogType) -> Option<(Seq<char>, Seq<char>)> {
    match t {
        DialogType::NewFile => Some(("New File"@, "Enter filename:"@)),
        DialogType::NewFolder => Some(("New Folder"@, "Enter folder name:"@)),
        DialogType::Rename => Some(("Rename"@, "Enter new name:"@)),
        DialogType::Delete => Some(("Delete"@, "Confirm deletion:"@)),
        DialogType::Inactive => None,
    }
}

/// The dialog's text under its instruction: the input, and how to answer.
pub open spec fn dialog_text(t: DialogType, instruction: Seq<char>, input: Seq<char>) -> Seq<char> {
    if t == DialogType::Delete {
        instruction + "\n"@ + input + "\n\nPress 'y' to confirm, 'n' or 'Esc' to cancel"@
    } else {
        instruction + "\n\n> "@ + input + "\n\n[Enter] Confirm  [Esc] Cancel"@
    }
}

/// The texts of the dialog.
pub struct Dialog<'a> {
    pub dialog_state: &'a DialogState,
}

impl<'a> Dialog<'a> {
    /// The dialog showing `dialog_state`.
    pub fn new(dialog_state: &'a DialogState) -> (d: Self)
        ensures
            d.dialog_state == dialog_state,
    {
        Dialog { dialog_state }
    }

    fn heading(&self) -> (r: Option<(&'static str, &'static str)>)
        ensures
            match dialog_heading(self.dialog_state.dialog_type) {
                Some((t, i)) => r matches Some((a, b)) && a@ == t && b@ == i,
                None => r is None,
            },
    {
        match self.dialog_state.dialog_type {
            DialogType::NewFile => Some(("New File", "Enter filename:")),
            DialogType::NewFolder => Some(("New Folder", "Enter folder name:")),
            DialogType::Rename => Some(("Rename", "Enter new name:")),
            DialogType::Delete => Some(("Delete", "Confirm deletion:")),
            DialogType::Inactive => None,
        }
    }

    /// The border title, `" <title> "`; none when no dialog is shown.
    pub fn title(&self) -> (r: Option<String>)
        ensures
            match dialog_heading(self.dialog_state.dialog_type) {
                Some((t, _)) => r matches Some(s) && s@ == " "@ + t + " "@,
                None => r is None,
            },
    {
        match self.heading() {
            Some((t, _)) => {
                let mut out: Vec<char> = Vec::new();
                push_str(&mut out, " ");
                push_str(&mut out, t);
                push_str(&mut out, " ");
                Some(string_from_chars(&out))
            },
            None => None,
        }
    }

    /// The instruction, the input and how to answer; none when no dialog is
    /// shown.
    pub fn body(&self) -> (r: Option<String>)
        ensures
            match dialog_heading(self.dialog_state.dialog_type) {
                Some((_, i)) => r matches Some(s) && s@ == dialog_text(
                    self.dialog_state.dialog_type,
                    i,
                    self.dialog_state.input@,
                ),
                None => r is None,
            },
    {
        match self.heading() {
            Some((_, ins)) => {
                let mut out: Vec<char> = Vec::new();
                push_str(&mut out, ins);
                if self.dialog_state.dialog_type == DialogType::Delete {
                    push_str(&mut out, "\n");
                    push_str(&mut out, self.dialog_state.input.as_str());
                    push_str(&mut out, "\n\nPress 'y' to confirm, 'n' or 'Esc' to cancel");
                } else {
                    push_str(&mut out, "\n\n> ");
                    push_str(&mut out, self.dialog_state.input.as_str());
                    push_str(&mut out, "\n\n[Enter] Confirm  [Esc] Cancel");
                }
                Some(string_from_chars(&out))
            },
            None => None,
        }
    }

    /// `"ERROR: <error>"` when the shown dialog has an error.
    pub fn error_line(&self) -> (r: Option<String>)
        ensures
            match self.dialog_state.error {
                Some(e) => if self.dialog_state.dialog_type == DialogType::Inactive {
                    r is None
                } else {
                    r matches Some(s) && s@ == "ERROR: "@ + e@
                },
                None => r is None,
            },
    {
        if self.dialog_state.dialog_type == DialogType::Inactive {
            return None;
        }
        match &self.dialog_state.error {
            Some(e) => {
                let mut out: Vec<char> = Vec::new();
                push_str(&mut out, "ERROR: ");
                push_str(&mut out, e.as_str());
                Some(string_from_chars(&out))
            },
            None => None,
        }
    }
}

/// A colour as red, green and blue.
#[derive(Debug, Clone, Copy, PartialEq, Eq, Structural)]
pub struct Rgb {
    pub r: u8,
    pub g: u8,
    pub b: u8,
}

/// A run of highlighted text and its colour.
#[derive(Debug, Clone)]
pub struct StyledText {
    pub text: String,
    pub color: Rgb,
}

/// A piece of a drawn editor line: coloured text, or the cursor mark.
#[derive(Debug, Clone)]
pub enum Piece {
    Text(String, Rgb),
    Cursor,
}

/// A piece as plain values.
pub enum PieceView {
    Text(Seq<char>, Rgb),
    Cursor,
}

pub open spec fn styled_view(runs: Seq<StyledText>) -> Seq<(Seq<char>, Rgb)> {
    runs.map_values(|r: StyledText| (r.text@, r.color))
}

pub open spec fn pieces_view(ps: Seq<Piece>) -> Seq<PieceView> {
    ps.map_values(
        |p: Piece|
            match p {
                Piece::Text(t, c) => PieceView::Text(t@, c),
                Piece::Cursor => PieceView::Cursor,
            },
    )
}

/// The runs of a preview line cut to `max` bytes, `used` bytes being shown
/// already: runs are kept while fewer than `max` bytes are shown; the first
/// run that does not fit is cut at the width and ends the line.
pub open spec fn clipped(runs: Seq<(Seq<char>, Rgb)>, used: int, max: int) -> Seq<(Seq<char>, Rgb)>
    decreases runs.len(),
{
    if runs.len() == 0 || used >= max {
        Seq::empty()
    } else {
        let t = runs[0].0;
        let avail = max - used;
        if utf8_len(t) > avail {
            seq![(prefix_at_byte(t, avail), runs[0].1)]
        } else {
            seq![runs[0]] + clipped(runs.drop_first(), used + utf8_len(t), max)
        }
    }
}

/// Every run that `clipped` cuts can be cut there (a plain byte slice panics
/// otherwise).
pub open spec fn clip_ok(runs: Seq<(Seq<char>, Rgb)>, used: int, max: int) -> bool
    decreases runs.len(),
{
    if runs.len() == 0 || used >= max {
        true
    } else {
        let t = runs[0].0;
        let avail = max - used;
        if utf8_len(t) > avail {
            is_boundary(t, avail)
        } else {
            clip_ok(runs.drop_first(), used + utf8_len(t), max)
        }
    }
}

fn cut_chars(t: &Vec<char>, k: usize) -> (r: String)
    requires
        k <= t@.len(),
    ensures
        r@ == t@.take(k as int),
{
    let mut out: Vec<char> = Vec::new();
    let mut i: usize = 0;
    while i < k
        invariant
            i <= k <= t@.len(),
            out@ == t@.take(i as int),
        decreases k - i,
    {
        out.push(t[i]);
        assert(out@ =~= t@.take(i + 1));
        i = i + 1;
    }
    string_from_chars(&out)
}

/// A line of the highlighted preview cut to `max_width` bytes (see
/// `clipped`); `None` where a run would have to be cut inside a character.
pub fn clip_line(runs: &Vec<StyledText>, max_width: usize) -> (r: Option<Vec<StyledText>>)
    ensures
        match r {
            Some(v) => clip_ok(styled_view(runs@), 0, max_width as int) && styled_view(v@) == clipped(
                styled_view(runs@),
                0,
                max_width as int,
            ),
            None => !clip_ok(styled_view(runs@), 0, max_width as int),
        },
{
    let ghost all = styled_view(runs@);
    let mut out: Vec<StyledText> = Vec::new();
    let mut used: usize = 0;
    let mut i: usize = 0;
    assert(all.skip(0) =~= all);
    while i < runs.len()
        invariant
            all == styled_view(runs@),
            i <= runs@.len(),
            used <= max_width,
            clip_ok(all, 0, max_width as int) == clip_ok(all.skip(i as int), used as int, max_width as int),
            clipped(all, 0, max_width as int) == styled_view(out@) + clipped(
                all.skip(i as int),
                used as int,
                max_width as int,
            ),
        decreases runs.len() - i,
    {
        let ghost rest = all.skip(i as int);
        assert(rest[0] == all[i as int]);
        assert(rest.drop_first() =~= all.skip(i + 1));
        if used >= max_width {
            assert(clipped(rest, used as int, max_width as int) =~= Seq::empty());
            assert(styled_view(out@) + Seq::empty() =~= styled_view(out@));
            return Some(out);
        }
        let run = &runs[i];
        let len = byte_len(run.text.as_str());
        let avail = max_width - used;
        if len > avail {
            let cs = chars_of(run.text.as_str());
            match find_char_offset(&cs, avail) {
                Some(k) => {
                    let cut = cut_chars(&cs, k);
                    let ghost before = out@;
                    out.push(StyledText { text: cut, color: run.color });
                    assert(styled_view(out@) =~= styled_view(before).push((prefix_at_byte(run.text@, avail as int), run.color)));
                    assert(clipped(all, 0, max_width as int) =~= styled_view(out@));
                    return Some(out);
                },
                None => {
                    return None;
                },
            }
        }
        let ghost before = out@;
        out.push(StyledText { text: run.text.clone(), color: run.color });
        assert(styled_view(out@) =~= styled_view(before).push(all[i as int]));
        assert(seq![rest[0]] + clipped(rest.drop_first(), used + len, max_width as int) =~= clipped(
            rest,
            used as int,
            max_width as int,
        ));
        assert(styled_view(before) + clipped(rest, used as int, max_width as int) =~= styled_view(out@) + clipped(
            all.skip(i + 1),
            used + len,
            max_width as int,
        ));
        used = used + len;
        i = i + 1;
    }
    assert(all.skip(i as int) =~= Seq::empty());
    assert(styled_view(out@) + Seq::empty() =~= styled_view(out@));
    Some(out)
}

/// Every character of `d` as a piece of its own.
pub open spec fn singles(d: Seq<char>, c: Rgb) -> Seq<PieceView> {
    Seq::new(d.len(), |j: int| PieceView::Text(seq![d[j]], c))
}

/// The characters of `d` as pieces of their own, with the cursor mark
/// before character `off` (after the last when `off` is the length).
pub open spec fn cursor_pieces(d: Seq<char>, c: Rgb, off: int) -> Seq<PieceView> {
    singles(d.take(off), c) + seq![PieceView::Cursor] + singles(d.skip(off), c)
}

/// The text a run shows when `avail` bytes are left: all of it, or its
/// first `avail` bytes.
pub open spec fn shown_part(t: Seq<char>, avail: int) -> Seq<char> {
    if utf8_len(t) > avail {
        prefix_at_byte(t, avail)
    } else {
        t
    }
}

/// The pieces of an editor line from the first run on, `used` columns (of
/// at most `max`) being drawn already, and the columns drawn at the end. Runs
/// are drawn while fewer than `max` columns are used, each cut to the bytes
/// left; a run that holds the cursor column is drawn a character at a time
/// with the cursor mark in it.
pub open spec fn line_pieces(runs: Seq<(Seq<char>, Rgb)>, used: int, max: int, cursor: Option<int>) -> (
    Seq<PieceView>,
    int,
)
    decreases runs.len(),
{
    if runs.len() == 0 || used >= max {
        (Seq::empty(), used)
    } else {
        let c = runs[0].1;
        let d = shown_part(runs[0].0, max - used);
        let n = d.len() as int;
        let ps = match cursor {
            Some(col) => if used <= col <= used + n {
                cursor_pieces(d, c, col - used)
            } else {
                seq![PieceView::Text(d, c)]
            },
            None => seq![PieceView::Text(d, c)],
        };
        let next = line_pieces(runs.drop_first(), used + n, max, cursor);
        (ps + next.0, next.1)
    }
}

/// Every run that `line_pieces` cuts can be cut there.
pub open spec fn pieces_ok(runs: Seq<(Seq<char>, Rgb)>, used: int, max: int) -> bool
    decreases runs.len(),
{
    if runs.len() == 0 || used >= max {
        true
    } else {
        let t = runs[0].0;
        let avail = max - used;
        &&& utf8_len(t) > avail ==> is_boundary(t, avail)
        &&& pieces_ok(runs.drop_first(), used + shown_part(t, avail).len(), max)
    }
}

/// A drawn editor line: its runs within `max` columns, and the cursor mark
/// at the end when the cursor is at or past the last drawn column.
pub open spec fn editor_line_pieces(runs: Seq<(Seq<char>, Rgb)>, max: int, cursor: Option<int>) -> Seq<PieceView> {
    let r = line_pieces(runs, 0, max, cursor);
    match cursor {
        Some(col) => if col >= r.1 {
            r.0.push(PieceView::Cursor)
        } else {
            r.0
        },
        None => r.0,
    }
}

fn push_cursor_pieces(out: &mut Vec<Piece>, d: &Vec<char>, c: Rgb, off: usize)
    requires
        off <= d@.len(),
    ensures
        pieces_view(final(out)@) == pieces_view(old(out)@) + cursor_pieces(d@, c, off as int),
{
    let ghost start = pieces_view(out@);
    let mut j: usize = 0;
    while j < d.len()
        invariant
            j <= d@.len(),
            off <= d@.len(),
            pieces_view(out@) == start + (if j <= off {
                singles(d@.take(j as int), c)
            } else {
                singles(d@.take(off as int), c) + seq![PieceView::Cursor] + singles(d@.subrange(off as int, j as int), c)
            }),
        decreases d.len() - j,
    {
        let ghost before = pieces_view(out@);
        if j == off {
            out.push(Piece::Cursor);
            assert(pieces_view(out@) =~= before.push(PieceView::Cursor));
        }
        let ghost mid = pieces_view(out@);
        let one = vec![d[j]];
        out.push(Piece::Text(string_from_chars(&one), c));
        assert(one@ =~= seq![d@[j as int]]);
        assert(pieces_view(out@) =~= mid.push(PieceView::Text(seq![d@[j as int]], c)));
        if j < off {
            assert(singles(d@.take(j + 1), c) =~= singles(d@.take(j as int), c).push(PieceView::Text(seq![d@[j as int]], c)));
        } else {
            assert(singles(d@.subrange(off as int, j + 1), c) =~= singles(d@.subrange(off as int, j as int), c).push(
                PieceView::Text(seq![d@[j as int]], c),
            ));
            if j == off {
                assert(singles(d@.subrange(off as int, j as int), c) =~= Seq::empty());
                assert(singles(d@.take(j as int), c) + seq![PieceView::Cursor] =~= singles(d@.take(off as int), c)
                    + seq![PieceView::Cursor] + Seq::empty());
            }
        }
        assert(pieces_view(out@) =~= start + (if j + 1 <= off {
            singles(d@.take(j + 1), c)
        } else {
            singles(d@.take(off as int), c) + seq![PieceView::Cursor] + singles(d@.subrange(off as int, j + 1), c)
        }));
        j = j + 1;
    }
    let ghost before = pieces_view(out@);
    if d.len() == off {
        out.push(Piece::Cursor);
        assert(d@.take(off as int) =~= d@);
        assert(singles(d@.skip(off as int), c) =~= Seq::empty());
        assert(pieces_view(out@) =~= before.push(PieceView::Cursor));
        assert(pieces_view(out@) =~= start + cursor_pieces(d@, c, off as int));
    } else {
        assert(d@.subrange(off as int, d@.len() as int) =~= d@.skip(off as int));
        assert(pieces_view(out@) =~= start + cursor_pieces(d@, c, off as int));
    }
}

/// An editor line drawn within `width` columns less two for the border
/// (see `editor_line_pieces`), the cursor at column `cursor` when it is on
/// this line; `None` where a run would have to be cut inside a character.
pub fn editor_line(runs: &Vec<StyledText>, width: usize, cursor: Option<usize>) -> (r: Option<Vec<Piece>>)
    ensures
        ({
            let max: int = if width >= 2 { width - 2 } else { 0 };
            let col = match cursor {
                Some(c) => Some(c as int),
                None => None,
            };
            match r {
                Some(v) => pieces_ok(styled_view(runs@), 0, max) && pieces_view(v@) == editor_line_pieces(
                    styled_view(runs@),
                    max,
                    col,
                ),
                None => !pieces_ok(styled_view(runs@), 0, max),
            }
        }),
{
    let max: usize = if width >= 2 { width - 2 } else { 0 };
    let ghost col: Option<int> = match cursor {
        Some(c) => Some(c as int),
        None => None,
    };
    let ghost all = styled_view(runs@);
    let mut out: Vec<Piece> = Vec::new();
    let mut used: usize = 0;
    let mut i: usize = 0;
    assert(all.skip(0) =~= all);
    assert(pieces_view(out@) + line_pieces(all, 0, max as int, col).0 =~= line_pieces(all, 0, max as int, col).0);
    while i < runs.len() && used < max
        invariant
            max == (if width >= 2 { width - 2 } else { 0 }),
            all == styled_view(runs@),
            i <= runs@.len(),
            used <= max,
            col == (match cursor {
                Some(c) => Some(c as int),
                None => None::<int>,
            }),
            pieces_ok(all, 0, max as int) == pieces_ok(all.skip(i as int), used as int, max as int),
            line_pieces(all, 0, max as int, col).0 == pieces_view(out@) + line_pieces(
                all.skip(i as int),
                used as int,
                max as int,
                col,
            ).0,
            line_pieces(all, 0, max as int, col).1 == line_pieces(all.skip(i as int), used as int, max as int, col).1,
        decreases runs.len() - i,
    {
        let ghost rest = all.skip(i as int);
        assert(rest[0] == all[i as int]);
        assert(rest.drop_first() =~= all.skip(i + 1));
        let run = &runs[i];
        assert(rest.len() > 0 && rest[0].0 == run.text@ && rest[0].1 == run.color);
        let cs = chars_of(run.text.as_str());
        let len = byte_len(run.text.as_str());
        let avail = max - used;
        let shown: Vec<char> = if len > avail {
            match find_char_offset(&cs, avail) {
                Some(k) => {
                    let cut = cut_chars(&cs, k);
                    chars_of(cut.as_str())
                },
                None => {
                    assert(!pieces_ok(rest, used as int, max as int));
                    assert(!pieces_ok(all, 0, max as int));
                    return None;
                },
            }
        } else {
            cs
        };
        assert(shown@ == shown_part(run.text@, avail as int));
        proof {
            crate::text::lemma_utf8_len_bound(shown@);
            lemma_chars_le_bytes(shown@);
        }
        let n = shown.len();
        let ghost before = pieces_view(out@);
        let here = match cursor {
            Some(c) => used <= c && c <= used + n,
            None => false,
        };
        if here {
            let c = match cursor {
                Some(c) => c,
                None => 0,
            };
            push_cursor_pieces(&mut out, &shown, run.color, c - used);
        } else {
            let t = string_from_chars(&shown);
            out.push(Piece::Text(t, run.color));
            assert(pieces_view(out@) =~= before.push(PieceView::Text(shown@, run.color)));
        }
        assert(pieces_view(out@) + line_pieces(all.skip(i + 1), used + n, max as int, col).0 =~= before
            + line_pieces(rest, used as int, max as int, col).0);
        used = used + n;
        i = i + 1;
    }
    let ghost fin = line_pieces(all.skip(i as int), used as int, max as int, col);
    assert(all.skip(i as int).len() == 0 || used >= max);
    assert(fin.0 =~= Seq::empty());
    assert(pieces_view(out@) + fin.0 =~= pieces_view(out@));
    match cursor {
        Some(c) => {
            if c >= used {
                let ghost before = pieces_view(out@);
                out.push(Piece::Cursor);
                assert(pieces_view(out@) =~= before.push(PieceView::Cursor));
            }
        },
        None => {},
    }
    Some(out)
}

proof fn lemma_chars_le_bytes(s: Seq<char>)
    ensures
        s.len() <= utf8_len(s),
    decreases s.len(),
{
    if s.len() > 0 {
        lemma_chars_le_bytes(s.drop_last());
    }
}

/// What syntect's default syntaxes and its `base16-ocean.dark` theme make of
/// `text`, the syntax chosen by the file extension (plain text when none
/// matches): for each line, as `str::lines` splits the text, its highlighted
/// runs with their foreground colours as red, green and blue.
pub uninterp spec fn highlighted(extension: Seq<char>, text: Seq<char>) -> Seq<Seq<(Seq<char>, (u8, u8, u8))>>;

/// A run as plain values.
pub open spec fn run_plain(s: StyledText) -> (Seq<char>, (u8, u8, u8)) {
    (s.text@, (s.color.r, s.color.g, s.color.b))
}

/// Highlighted lines as plain values.
pub open spec fn lines_plain(v: Seq<Vec<StyledText>>) -> Seq<Seq<(Seq<char>, (u8, u8, u8))>> {
    v.map_values(|l: Vec<StyledText>| l@.map_values(|s: StyledText| run_plain(s)))
}

/// A line of plain runs with its colours as `Rgb`.
pub open spec fn as_styled(l: Seq<(Seq<char>, (u8, u8, u8))>) -> Seq<(Seq<char>, Rgb)> {
    l.map_values(|x: (Seq<char>, (u8, u8, u8))| (x.0, Rgb { r: x.1.0, g: x.1.1, b: x.1.2 }))
}

/// Lines of runs as plain values.
pub open spec fn rows_view(v: Seq<Vec<StyledText>>) -> Seq<Seq<(Seq<char>, Rgb)>> {
    v.map_values(|l: Vec<StyledText>| styled_view(l@))
}

/// Highlights `text` as a file with the given extension (see `highlighted`):
/// syntect's `HighlightLines` over the default syntax and theme sets.
#[verifier::external_body]
pub fn highlight_lines(extension: &str, text: &str) -> (r: Vec<Vec<StyledText>>)
    ensures
        lines_plain(r@) == highlighted(extension@, text@),
{
    let ss = syntect::parsing::SyntaxSet::load_defaults_newlines();
    let ts = syntect::highlighting::ThemeSet::load_defaults();
    let syntax = ss.find_syntax_by_extension(extension).unwrap_or_else(|| ss.find_syntax_plain_text());
    let mut h = syntect::easy::HighlightLines::new(syntax, &ts.themes["base16-ocean.dark"]);
    text.lines().map(|l| {
        h.highlight_line(l, &ss).unwrap_or_default().into_iter().map(|(st, t)| StyledText {
            text: t.to_string(),
            color: Rgb { r: st.foreground.r, g: st.foreground.g, b: st.foreground.b },
        }).collect()
    }).collect()
}

/// The number of lines shown: at most `h`.
pub open spec fn shown_rows(n: int, h: int) -> int {
    if h < n {
        h
    } else {
        n
    }
}

/// The first `h` lines, each cut to `w` bytes (see `clipped`).
pub open spec fn first_rows(lines: Seq<Seq<(Seq<char>, Rgb)>>, w: int, h: int) -> Seq<Seq<(Seq<char>, Rgb)>> {
    Seq::new(shown_rows(lines.len() as int, h) as nat, |k: int| clipped(lines[k], 0, w))
}

/// Each of the first `h` lines can be cut to `w` bytes.
pub open spec fn rows_cut_ok(lines: Seq<Seq<(Seq<char>, Rgb)>>, w: int, h: int) -> bool {
    forall|k: int| 0 <= k < shown_rows(lines.len() as int, h) ==> clip_ok(#[trigger] lines[k], 0, w)
}

/// The first `max_height` highlighted lines, each cut to `max_width` bytes;
/// `None` where a run would have to be cut inside a character.
pub fn preview_rows(lines: &Vec<Vec<StyledText>>, max_width: usize, max_height: usize) -> (r: Option<Vec<Vec<StyledText>>>)
    ensures
        match r {
            Some(v) => rows_cut_ok(rows_view(lines@), max_width as int, max_height as int) && rows_view(v@)
                == first_rows(rows_view(lines@), max_width as int, max_height as int),
            None => !rows_cut_ok(rows_view(lines@), max_width as int, max_height as int),
        },
{
    let ghost all = rows_view(lines@);
    let n: usize = if max_height < lines.len() { max_height } else { lines.len() };
    let mut out: Vec<Vec<StyledText>> = Vec::new();
    let mut k: usize = 0;
    while k < n
        invariant
            all == rows_view(lines@),
            n == shown_rows(lines@.len() as int, max_height as int),
            k <= n <= lines@.len(),
            forall|j: int| 0 <= j < k ==> clip_ok(#[trigger] all[j], 0, max_width as int),
            rows_view(out@) =~= first_rows(all, max_width as int, max_height as int).take(k as int),
        decreases n - k,
    {
        match clip_line(&lines[k], max_width) {
            Some(line) => {
                let ghost before = out@;
                out.push(line);
                assert(rows_view(out@) =~= rows_view(before).push(styled_view(line@)));
                assert(first_rows(all, max_width as int, max_height as int).take(k + 1) =~= first_rows(
                    all,
                    max_width as int,
                    max_height as int,
                ).take(k as int).push(clipped(all[k as int], 0, max_width as int)));
            },
            None => {
                assert(!clip_ok(all[k as int], 0, max_width as int));
                return None;
            },
        }
        k = k + 1;
    }
    assert(first_rows(all, max_width as int, max_height as int).take(n as int) =~= first_rows(
        all,
        max_width as int,
        max_height as int,
    ));
    Some(out)
}

/// A highlighted preview: the file could not be read, its lines, or a line
/// that would have to be cut inside a character (a panic in a plain byte
/// slice).
#[derive(Debug, Clone)]
pub enum HighlightedPreview {
    Unreadable,
    Lines(Vec<Vec<StyledText>>),
    CutInsideChar,
}

proof fn lemma_rows_view_of_plain(v: Seq<Vec<StyledText>>)
    ensures
        rows_view(v) == lines_plain(v).map_values(|l: Seq<(Seq<char>, (u8, u8, u8))>| as_styled(l)),
{
    assert forall|k: int| 0 <= k < v.len() implies #[trigger] rows_view(v)[k] == lines_plain(v).map_values(
        |l: Seq<(Seq<char>, (u8, u8, u8))>| as_styled(l),
    )[k] by {
        assert(styled_view(v[k]@) =~= as_styled(v[k]@.map_values(|s: StyledText| run_plain(s))));
    }
    assert(rows_view(v) =~= lines_plain(v).map_values(|l: Seq<(Seq<char>, (u8, u8, u8))>| as_styled(l)));
}

/// The highlighted preview of a file's `content` (`None` when it could not
/// be read): its first `max_height` lines, highlighted by its extension and
/// cut to `max_width` bytes.
pub fn preview_lines(extension: &str, content: Option<String>, max_width: usize, max_height: usize) -> (r: HighlightedPreview)
    ensures
        match content {
            None => r is Unreadable,
            Some(t) => {
                let rows = highlighted(extension@, t@).map_values(|l: Seq<(Seq<char>, (u8, u8, u8))>| as_styled(l));
                if rows_cut_ok(rows, max_width as int, max_height as int) {
                    r matches HighlightedPreview::Lines(v) && rows_view(v@) == first_rows(
                        rows,
                        max_width as int,
                        max_height as int,
                    )
                } else {
                    r is CutInsideChar
                }
            },
        },
{
    match content {
        None => HighlightedPreview::Unreadable,
        Some(t) => {
            let lines = highlight_lines(extension, t.as_str());
            proof {
                lemma_rows_view_of_plain(lines@);
            }
            match preview_rows(&lines, max_width, max_height) {
                Some(v) => HighlightedPreview::Lines(v),
                None => HighlightedPreview::CutInsideChar,
            }
        },
    }
}

} // verus!
