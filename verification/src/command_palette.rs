//! The command palette: a list of commands filtered by a typed query, with a
//! highlighted entry that Enter runs.
use vstd::prelude::*;
use crate::keys::{KeyCode, KeyEvent};
use crate::menu::MenuAction;
use crate::state::FileEntry;
use crate::text::{
    chars_contain, chars_of, contains_seq, decimal, lowercase, push_all, push_decimal, split_lines,
    string_from_chars, text_lines, to_lowercase,
};

verus! {

/// A command of the palette.
#[derive(Debug, Clone)]
pub struct CommandItem {
    pub name: String,
    pub category: String,
    pub shortcut: String,
    pub action: MenuAction,
}

/// How a command is shown: `"Category: Name"`, followed by `"  [Shortcut]"`
/// when it has a shortcut.
pub open spec fn command_text(category: Seq<char>, name: Seq<char>, shortcut: Seq<char>) -> Seq<char> {
    let base = category + seq![':', ' '] + name;
    if shortcut.len() == 0 {
        base
    } else {
        base + seq![' ', ' ', '['] + shortcut + seq![']']
    }
}

pub open spec fn item_text(item: CommandItem) -> Seq<char> {
    command_text(item.category@, item.name@, item.shortcut@)
}

/// The command is found by the query: its shown text, lowercased, contains the
/// lowercased query.
pub open spec fn item_matches(item: CommandItem, query: Seq<char>) -> bool {
    contains_seq(lowercase(item_text(item)), lowercase(query))
}

/// The commands found by the query, in order.
pub open spec fn matching_items(items: Seq<CommandItem>, query: Seq<char>) -> Seq<CommandItem>
    decreases items.len(),
{
    if items.len() == 0 {
        items
    } else {
        let rest = matching_items(items.drop_last(), query);
        if item_matches(items.last(), query) {
            rest.push(items.last())
        } else {
            rest
        }
    }
}

/// The commands the palette offers: name, category, shortcut, action.
pub open spec fn default_commands() -> Seq<(Seq<char>, Seq<char>, Seq<char>, MenuAction)> {
    seq![
        ("New File"@, "File"@, "Ctrl+N"@, MenuAction::NewFile),
        ("New Folder"@, "File"@, ""@, MenuAction::NewFolder),
        ("Rename"@, "File"@, "Ctrl+R"@, MenuAction::Rename),
        ("Delete"@, "File"@, "Del"@, MenuAction::Delete),
        ("Quit"@, "File"@, "Ctrl+Q"@, MenuAction::Quit),
        ("Open in Editor"@, "Edit"@, "e"@, MenuAction::OpenEditor),
        ("Undo"@, "Edit"@, "Ctrl+Z"@, MenuAction::Undo),
        ("Redo"@, "Edit"@, "Ctrl+Y"@, MenuAction::Redo),
        ("Toggle Hidden Files"@, "View"@, "Ctrl+H"@, MenuAction::ToggleHidden),
        ("Toggle Preview"@, "View"@, "Tab"@, MenuAction::TogglePreview),
        ("Cycle Sort Order"@, "View"@, "Ctrl+O"@, MenuAction::CycleSort),
        ("Cycle Theme"@, "View"@, "Ctrl+T"@, MenuAction::CycleTheme),
        ("Refresh"@, "View"@, "F5"@, MenuAction::Refresh),
        ("Go Up"@, "View"@, "\u{2190}"@, MenuAction::GoUp),
        ("Keybindings"@, "Help"@, ""@, MenuAction::ShowKeybindings),
        ("About"@, "Help"@, ""@, MenuAction::ShowAbout),
    ]
}

pub open spec fn item_fields(c: CommandItem) -> (Seq<char>, Seq<char>, Seq<char>, MenuAction) {
    (c.name@, c.category@, c.shortcut@, c.action)
}

impl CommandItem {
    /// A command with the given texts and action.
    pub fn new(name: &str, category: &str, shortcut: &str, action: MenuAction) -> (c: Self)
        ensures
            c.name@ == name@,
            c.category@ == category@,
            c.shortcut@ == shortcut@,
            c.action == action,
    {
        CommandItem { name: name.to_owned(), category: category.to_owned(), shortcut: shortcut.to_owned(), action }
    }

    /// The text the palette shows for the command.
    pub fn display(&self) -> (s: String)
        ensures
            s@ == item_text(*self),
    {
        let mut out = chars_of(self.category.as_str());
        out.push(':');
        out.push(' ');
        let name = chars_of(self.name.as_str());
        push_all(&mut out, &name);
        if !self.shortcut.as_str().is_empty() {
            out.push(' ');
            out.push(' ');
            out.push('[');
            let sc = chars_of(self.shortcut.as_str());
            push_all(&mut out, &sc);
            out.push(']');
        }
        assert(out@ =~= item_text(*self));
        string_from_chars(&out)
    }

    /// The shown text contains the query, ignoring case.
    pub fn matches_query(&self, query: &str) -> (r: bool)
        ensures
            r == item_matches(*self, query@),
    {
        let query_lower = chars_of(to_lowercase(query).as_str());
        let display_lower = chars_of(to_lowercase(self.display().as_str()).as_str());
        chars_contain(&display_lower, &query_lower)
    }
}

/// What the palette searches: the commands, the files of the directory,
/// their contents (grep) or the bookmarks.
#[derive(Debug, Clone, Copy, PartialEq, Eq, Structural)]
pub enum PaletteMode {
    Actions,
    Files,
    Grep,
    Bookmarks,
}

/// A search result: the text that is searched and shown, a detail shown
/// beside it (for grep, the file and line it comes from), the path it leads
/// to and whether that path is a directory.
#[derive(Debug, Clone)]
pub struct SearchItem {
    pub label: String,
    pub detail: String,
    pub path: String,
    pub is_dir: bool,
}

/// A search result as plain values: label, detail, path, directory.
pub open spec fn search_view(r: SearchItem) -> (Seq<char>, Seq<char>, Seq<char>, bool) {
    (r.label@, r.detail@, r.path@, r.is_dir)
}

pub open spec fn searches_view(v: Seq<SearchItem>) -> Seq<(Seq<char>, Seq<char>, Seq<char>, bool)> {
    v.map_values(|r: SearchItem| search_view(r))
}

/// How a search result is shown: the label, after `"detail: "` when there is
/// a detail.
pub open spec fn result_text(r: SearchItem) -> Seq<char> {
    if r.detail@.len() == 0 {
        r.label@
    } else {
        r.detail@ + seq![':', ' '] + r.label@
    }
}

impl SearchItem {
    /// The text the palette shows for the result.
    pub fn display(&self) -> (s: String)
        ensures
            s@ == result_text(*self),
    {
        if self.detail.as_str().is_empty() {
            return self.label.clone();
        }
        let mut out = chars_of(self.detail.as_str());
        out.push(':');
        out.push(' ');
        let label = chars_of(self.label.as_str());
        push_all(&mut out, &label);
        assert(out@ =~= result_text(*self));
        string_from_chars(&out)
    }
}

/// The file search offers each entry of the listing: its name, leading to its
/// path.
pub open spec fn file_results(entries: Seq<FileEntry>) -> Seq<(Seq<char>, Seq<char>, Seq<char>, bool)> {
    entries.map_values(|e: FileEntry| (e.name@, Seq::<char>::empty(), e.path@, e.is_dir))
}

/// The bookmark search offers each bookmarked directory.
pub open spec fn bookmark_results(bookmarks: Seq<Seq<char>>) -> Seq<(Seq<char>, Seq<char>, Seq<char>, bool)> {
    bookmarks.map_values(|b: Seq<char>| (b, Seq::<char>::empty(), b, true))
}

/// A file whose lines grep searches: its name, its path and its text.
#[derive(Debug, Clone)]
pub struct GrepFile {
    pub name: String,
    pub path: String,
    pub text: String,
}

/// Each line of a file as a grep result: the line, `"name:number"` (counted
/// from 1), leading to the file.
pub open spec fn line_results(name: Seq<char>, path: Seq<char>, lines: Seq<Seq<char>>) -> Seq<
    (Seq<char>, Seq<char>, Seq<char>, bool),
> {
    Seq::new(lines.len(), |k: int| (lines[k], name + seq![':'] + decimal((k + 1) as nat), path, false))
}

/// The lines of the files, file after file, as grep results.
pub open spec fn grep_results(files: Seq<GrepFile>) -> Seq<(Seq<char>, Seq<char>, Seq<char>, bool)>
    decreases files.len(),
{
    if files.len() == 0 {
        Seq::empty()
    } else {
        let f = files.last();
        grep_results(files.drop_last()) + line_results(f.name@, f.path@, text_lines(f.text@))
    }
}

/// The result is found by the query: its label, lowercased, contains the
/// lowercased query.
pub open spec fn label_matches(r: (Seq<char>, Seq<char>, Seq<char>, bool), query: Seq<char>) -> bool {
    contains_seq(lowercase(r.0), lowercase(query))
}

/// The results the query finds, in order.
pub open spec fn matching_results(rs: Seq<(Seq<char>, Seq<char>, Seq<char>, bool)>, query: Seq<char>) -> Seq<
    (Seq<char>, Seq<char>, Seq<char>, bool),
>
    decreases rs.len(),
{
    if rs.len() == 0 {
        rs
    } else {
        let rest = matching_results(rs.drop_last(), query);
        if label_matches(rs.last(), query) {
            rest.push(rs.last())
        } else {
            rest
        }
    }
}

/// The results listed for a query: all of them for an empty query (none for
/// grep, which needs something to look for), else those the query finds.
pub open spec fn results_for(mode: PaletteMode, rs: Seq<(Seq<char>, Seq<char>, Seq<char>, bool)>, query: Seq<char>) -> Seq<
    (Seq<char>, Seq<char>, Seq<char>, bool),
> {
    if query.len() == 0 {
        if mode == PaletteMode::Grep {
            Seq::empty()
        } else {
            rs
        }
    } else {
        matching_results(rs, query)
    }
}

/// The palette's query, its commands and the ones the query finds, the
/// results of a search and the ones the query finds, the highlighted entry,
/// and what it searches.
#[derive(Debug, Clone)]
pub struct CommandPaletteState {
    pub query: String,
    pub all_items: Vec<CommandItem>,
    pub filtered: Vec<CommandItem>,
    pub selected: usize,
    pub active: bool,
    pub mode: PaletteMode,
    pub results: Vec<SearchItem>,
    pub found: Vec<SearchItem>,
}

/// The commands listed for a query: all of them for an empty query, else
/// those the query finds.
pub open spec fn palette_list(items: Seq<CommandItem>, query: Seq<char>) -> Seq<CommandItem> {
    if query.len() == 0 {
        items
    } else {
        matching_items(items, query)
    }
}

/// The highlight `selected` kept within a list of `n` entries: on the last
/// one when it was past it, on 0 for an empty list.
pub open spec fn clamp_row(selected: usize, n: int) -> usize {
    if selected >= n {
        if n > 0 {
            (n - 1) as usize
        } else {
            0usize
        }
    } else {
        selected
    }
}

/// What handling a key asks of the caller: nothing, the palette closed, a
/// command to run, or a search result to go to (its path, and whether that
/// is a directory).
#[derive(Debug, Clone, PartialEq, Eq)]
pub enum CommandPaletteResult {
    Continue,
    Close,
    Action(MenuAction),
    Jump(String, bool),
}

fn copy_items(items: &Vec<CommandItem>) -> (r: Vec<CommandItem>)
    ensures
        r@ == items@,
{
    let mut out: Vec<CommandItem> = Vec::new();
    let mut i: usize = 0;
    while i < items.len()
        invariant
            i <= items@.len(),
            out@ == items@.take(i as int),
        decreases items.len() - i,
    {
        let it = &items[i];
        let c = CommandItem {
            name: it.name.clone(),
            category: it.category.clone(),
            shortcut: it.shortcut.clone(),
            action: it.action,
        };
        out.push(c);
        assert(out@ =~= items@.take(i + 1));
        i = i + 1;
    }
    assert(items@.take(items@.len() as int) =~= items@);
    out
}

/// The lists after the query became `query`: the commands re-filtered in
/// the commands mode, the search results otherwise; the highlight kept within
/// the list shown.
pub open spec fn refiltered(old: CommandPaletteState, new: CommandPaletteState, query: Seq<char>) -> bool {
    &&& if old.mode == PaletteMode::Actions {
        &&& new.filtered@ == palette_list(old.all_items@, query)
        &&& new.found == old.found
    } else {
        &&& searches_view(new.found@) == results_for(old.mode, searches_view(old.results@), query)
        &&& new.filtered == old.filtered
    }
    &&& new.selected == clamp_row(old.selected, new.shown_len())
}

/// What a key does to the open palette and what it returns (see
/// `CommandPaletteState::handle_key_event`).
pub open spec fn palette_stepped(
    old: CommandPaletteState,
    key: KeyEvent,
    new: CommandPaletteState,
    r: CommandPaletteResult,
) -> bool {
    &&& old.cursor_in_range() ==> new.cursor_in_range()
    &&& new.all_items == old.all_items
    &&& new.results == old.results
    &&& new.mode == old.mode
    &&& match key.code {
        KeyCode::Esc => {
            &&& r == CommandPaletteResult::Close
            &&& !new.active
            &&& new.query@.len() == 0
            &&& new.filtered == old.filtered
            &&& new.found == old.found
            &&& new.selected == old.selected
        },
        KeyCode::Up => r == CommandPaletteResult::Continue && new == (CommandPaletteState {
            selected: if old.selected > 0 { (old.selected - 1) as usize } else { 0 },
            ..old
        }),
        KeyCode::Down => r == CommandPaletteResult::Continue && new == (CommandPaletteState {
            selected: if old.selected + 1 < old.shown_len() {
                (old.selected + 1) as usize
            } else {
                old.selected
            },
            ..old
        }),
        KeyCode::Enter => {
            &&& !new.active
            &&& new.query@.len() == 0
            &&& new.filtered == old.filtered
            &&& new.found == old.found
            &&& new.selected == old.selected
            &&& r == (if old.selected >= old.shown_len() {
                CommandPaletteResult::Close
            } else if old.mode == PaletteMode::Actions {
                CommandPaletteResult::Action(old.filtered@[old.selected as int].action)
            } else {
                CommandPaletteResult::Jump(
                    old.found@[old.selected as int].path,
                    old.found@[old.selected as int].is_dir,
                )
            })
        },
        KeyCode::Backspace => {
            &&& r == CommandPaletteResult::Continue
            &&& new.active == old.active
            &&& new.query@ == (if old.query@.len() > 0 {
                old.query@.drop_last()
            } else {
                old.query@
            })
            &&& refiltered(old, new, new.query@)
        },
        KeyCode::Char(c) => {
            &&& r == CommandPaletteResult::Continue
            &&& if !(key.ctrl && key.alt) {
                &&& new.active == old.active
                &&& new.query@ == old.query@.push(c)
                &&& refiltered(old, new, new.query@)
            } else {
                new == old
            }
        },
        _ => r == CommandPaletteResult::Continue && new == old,
    }
}

fn copy_result(r: &SearchItem) -> (c: SearchItem)
    ensures
        c == *r,
{
    SearchItem { label: r.label.clone(), detail: r.detail.clone(), path: r.path.clone(), is_dir: r.is_dir }
}

/// The results the query finds (all, or none for grep, when it is empty).
fn filter_results(mode: PaletteMode, rs: &Vec<SearchItem>, query: &str) -> (out: Vec<SearchItem>)
    ensures
        searches_view(out@) == results_for(mode, searches_view(rs@), query@),
{
    let ghost v = searches_view(rs@);
    let mut out: Vec<SearchItem> = Vec::new();
    if query.is_empty() {
        if mode == PaletteMode::Grep {
            assert(searches_view(out@) =~= results_for(mode, v, query@));
            return out;
        }
    }
    let q = chars_of(to_lowercase(query).as_str());
    let mut i: usize = 0;
    while i < rs.len()
        invariant
            v == searches_view(rs@),
            i <= rs@.len(),
            q@ == lowercase(query@),
            searches_view(out@) == (if query@.len() == 0 {
                v.take(i as int)
            } else {
                matching_results(v.take(i as int), query@)
            }),
        decreases rs.len() - i,
    {
        assert(v.take(i + 1).drop_last() =~= v.take(i as int));
        assert(v.take(i + 1).last() == search_view(rs@[i as int]));
        let keep = if query.is_empty() {
            true
        } else {
            let label = chars_of(to_lowercase(rs[i].label.as_str()).as_str());
            chars_contain(&label, &q)
        };
        if keep {
            let ghost before = out@;
            out.push(copy_result(&rs[i]));
            assert(searches_view(out@) =~= searches_view(before).push(search_view(rs@[i as int])));
        }
        i = i + 1;
    }
    assert(v.take(rs@.len() as int) =~= v);
    out
}

fn copy_results(rs: &Vec<SearchItem>) -> (out: Vec<SearchItem>)
    ensures
        out@ == rs@,
{
    let mut out: Vec<SearchItem> = Vec::new();
    let mut i: usize = 0;
    while i < rs.len()
        invariant
            i <= rs@.len(),
            out@ == rs@.take(i as int),
        decreases rs.len() - i,
    {
        out.push(copy_result(&rs[i]));
        assert(out@ =~= rs@.take(i + 1));
        i = i + 1;
    }
    assert(rs@.take(rs@.len() as int) =~= rs@);
    out
}

/// The grep results of one file's lines, after those already in `out`.
fn push_line_results(out: &mut Vec<SearchItem>, f: &GrepFile)
    ensures
        searches_view(final(out)@) == searches_view(old(out)@) + line_results(f.name@, f.path@, text_lines(f.text@)),
{
    let lines = split_lines(f.text.as_str());
    let ghost ls = lines.deep_view();
    let ghost base = searches_view(out@);
    let ghost want = line_results(f.name@, f.path@, ls);
    let name = chars_of(f.name.as_str());
    let mut k: usize = 0;
    while k < lines.len()
        invariant
            ls == lines.deep_view(),
            ls == text_lines(f.text@),
            want == line_results(f.name@, f.path@, ls),
            name@ == f.name@,
            k <= ls.len(),
            searches_view(out@) == base + want.take(k as int),
        decreases lines.len() - k,
    {
        let mut d = name.clone();
        d.push(':');
        push_decimal(&mut d, (k + 1) as u64);
        let item = SearchItem {
            label: lines[k].clone(),
            detail: string_from_chars(&d),
            path: f.path.clone(),
            is_dir: false,
        };
        assert(d@ =~= f.name@ + seq![':'] + decimal((k + 1) as nat));
        assert(item.label@ == ls[k as int]);
        assert(search_view(item) == want[k as int]);
        let ghost before = out@;
        out.push(item);
        assert(want.take(k + 1) =~= want.take(k as int).push(want[k as int]));
        assert(searches_view(out@) =~= searches_view(before).push(search_view(item)));
        k = k + 1;
    }
    assert(want.take(ls.len() as int) =~= want);
}

/// The grep results of the files, file after file.
fn grep_items(files: &Vec<GrepFile>) -> (out: Vec<SearchItem>)
    ensures
        searches_view(out@) == grep_results(files@),
{
    let mut out: Vec<SearchItem> = Vec::new();
    let mut i: usize = 0;
    while i < files.len()
        invariant
            i <= files@.len(),
            searches_view(out@) == grep_results(files@.take(i as int)),
        decreases files.len() - i,
    {
        assert(files@.take(i + 1).drop_last() =~= files@.take(i as int));
        push_line_results(&mut out, &files[i]);
        i = i + 1;
    }
    assert(files@.take(files@.len() as int) =~= files@);
    out
}

impl CommandPaletteState {
    /// How many entries are shown: commands in the commands mode, search
    /// results otherwise.
    pub open spec fn shown_len(&self) -> int {
        if self.mode == PaletteMode::Actions {
            self.filtered@.len() as int
        } else {
            self.found@.len() as int
        }
    }

    /// The highlighted entry is one of those shown (or none is shown and the
    /// highlight is at 0).
    pub open spec fn cursor_in_range(&self) -> bool {
        self.selected < self.shown_len() || (self.shown_len() == 0 && self.selected == 0)
    }

    /// The palette's commands, closed, with every command listed.
    pub fn new() -> (p: Self)
        ensures
            p.all_items@.map_values(|c: CommandItem| item_fields(c)) == default_commands(),
            p.filtered@ == p.all_items@,
            p.query@.len() == 0,
            p.selected == 0,
            !p.active,
            p.mode == PaletteMode::Actions,
            p.results@.len() == 0,
            p.found@.len() == 0,
    {
        let all_items = vec![
            CommandItem::new("New File", "File", "Ctrl+N", MenuAction::NewFile),
            CommandItem::new("New Folder", "File", "", MenuAction::NewFolder),
            CommandItem::new("Rename", "File", "Ctrl+R", MenuAction::Rename),
            CommandItem::new("Delete", "File", "Del", MenuAction::Delete),
            CommandItem::new("Quit", "File", "Ctrl+Q", MenuAction::Quit),
            CommandItem::new("Open in Editor", "Edit", "e", MenuAction::OpenEditor),
            CommandItem::new("Undo", "Edit", "Ctrl+Z", MenuAction::Undo),
            CommandItem::new("Redo", "Edit", "Ctrl+Y", MenuAction::Redo),
            CommandItem::new("Toggle Hidden Files", "View", "Ctrl+H", MenuAction::ToggleHidden),
            CommandItem::new("Toggle Preview", "View", "Tab", MenuAction::TogglePreview),
            CommandItem::new("Cycle Sort Order", "View", "Ctrl+O", MenuAction::CycleSort),
            CommandItem::new("Cycle Theme", "View", "Ctrl+T", MenuAction::CycleTheme),
            CommandItem::new("Refresh", "View", "F5", MenuAction::Refresh),
            CommandItem::new("Go Up", "View", "\u{2190}", MenuAction::GoUp),
            CommandItem::new("Keybindings", "Help", "", MenuAction::ShowKeybindings),
            CommandItem::new("About", "Help", "", MenuAction::ShowAbout),
        ];
        assert(all_items@.map_values(|c: CommandItem| item_fields(c)) =~= default_commands());
        let filtered = copy_items(&all_items);
        CommandPaletteState {
            query: String::new(),
            all_items,
            filtered,
            selected: 0,
            active: false,
            mode: PaletteMode::Actions,
            results: Vec::new(),
            found: Vec::new(),
        }
    }

    /// Opens the palette on the commands with an empty query, every command
    /// listed and the first highlighted.
    pub fn open(&mut self)
        ensures
            final(self).active,
            final(self).mode == PaletteMode::Actions,
            final(self).query@.len() == 0,
            final(self).filtered@ == old(self).all_items@,
            final(self).all_items == old(self).all_items,
            final(self).selected == 0,
            final(self).results == old(self).results,
            final(self).found == old(self).found,
    {
        self.active = true;
        self.mode = PaletteMode::Actions;
        self.query = String::new();
        self.filtered = copy_items(&self.all_items);
        self.selected = 0;
    }

    /// Opens a search over `results`, all of them listed for the empty query
    /// (none for grep), the first highlighted.
    fn open_results(&mut self, mode: PaletteMode, results: Vec<SearchItem>)
        requires
            mode != PaletteMode::Actions,
        ensures
            final(self).active,
            final(self).mode == mode,
            final(self).query@.len() == 0,
            final(self).results@ == results@,
            searches_view(final(self).found@) == results_for(mode, searches_view(results@), Seq::empty()),
            final(self).all_items == old(self).all_items,
            final(self).filtered == old(self).filtered,
            final(self).selected == 0,
    {
        self.active = true;
        self.mode = mode;
        self.query = String::new();
        let empty = String::new();
        self.found = filter_results(mode, &results, empty.as_str());
        self.results = results;
        self.selected = 0;
    }

    /// Opens the file search over the entries of the listing, every entry
    /// listed and the first highlighted.
    pub fn open_files(&mut self, entries: &Vec<FileEntry>)
        ensures
            final(self).active,
            final(self).mode == PaletteMode::Files,
            final(self).query@.len() == 0,
            searches_view(final(self).results@) == file_results(entries@),
            searches_view(final(self).found@) == file_results(entries@),
            final(self).all_items == old(self).all_items,
            final(self).filtered == old(self).filtered,
            final(self).selected == 0,
    {
        let mut rs: Vec<SearchItem> = Vec::new();
        let mut i: usize = 0;
        while i < entries.len()
            invariant
                i <= entries@.len(),
                searches_view(rs@) == file_results(entries@.take(i as int)),
            decreases entries.len() - i,
        {
            let e = &entries[i];
            let ghost before = rs@;
            let item = SearchItem { label: e.name.clone(), detail: String::new(), path: e.path.clone(), is_dir: e.is_dir };
            assert(search_view(item) == (e.name@, Seq::<char>::empty(), e.path@, e.is_dir));
            rs.push(item);
            assert(file_results(entries@.take(i + 1)) =~= file_results(entries@.take(i as int)).push(search_view(item)));
            assert(searches_view(rs@) =~= searches_view(before).push(search_view(item)));
            i = i + 1;
        }
        assert(entries@.take(entries@.len() as int) =~= entries@);
        self.open_results(PaletteMode::Files, rs);
    }

    /// Opens the bookmark search over the bookmarked directories, every one
    /// listed and the first highlighted.
    pub fn open_bookmarks(&mut self, bookmarks: &Vec<String>)
        ensures
            final(self).active,
            final(self).mode == PaletteMode::Bookmarks,
            final(self).query@.len() == 0,
            searches_view(final(self).results@) == bookmark_results(bookmarks.deep_view()),
            searches_view(final(self).found@) == bookmark_results(bookmarks.deep_view()),
            final(self).all_items == old(self).all_items,
            final(self).filtered == old(self).filtered,
            final(self).selected == 0,
    {
        let ghost bv = bookmarks.deep_view();
        let mut rs: Vec<SearchItem> = Vec::new();
        let mut i: usize = 0;
        while i < bookmarks.len()
            invariant
                bv == bookmarks.deep_view(),
                i <= bv.len(),
                searches_view(rs@) == bookmark_results(bv.take(i as int)),
            decreases bookmarks.len() - i,
        {
            let b = &bookmarks[i];
            let ghost before = rs@;
            let item = SearchItem { label: b.clone(), detail: String::new(), path: b.clone(), is_dir: true };
            assert(bv[i as int] == b@);
            assert(search_view(item) == (b@, Seq::<char>::empty(), b@, true));
            rs.push(item);
            assert(bookmark_results(bv.take(i + 1)) =~= bookmark_results(bv.take(i as int)).push(search_view(item)));
            assert(searches_view(rs@) =~= searches_view(before).push(search_view(item)));
            i = i + 1;
        }
        assert(bv.take(bv.len() as int) =~= bv);
        self.open_results(PaletteMode::Bookmarks, rs);
    }

    /// Opens grep with nothing to search yet (the files' lines come with
    /// `load_grep`) and nothing listed.
    pub fn open_grep(&mut self)
        ensures
            final(self).active,
            final(self).mode == PaletteMode::Grep,
            final(self).query@.len() == 0,
            final(self).results@.len() == 0,
            final(self).found@.len() == 0,
            final(self).all_items == old(self).all_items,
            final(self).filtered == old(self).filtered,
            final(self).selected == 0,
    {
        self.open_results(PaletteMode::Grep, Vec::new());
        assert(searches_view(self.found@).len() == self.found@.len());
    }

    /// Gives grep the lines of `files` to search, and lists those the query
    /// finds, the highlight kept within the list.
    pub fn load_grep(&mut self, files: &Vec<GrepFile>)
        requires
            old(self).mode == PaletteMode::Grep,
        ensures
            searches_view(final(self).results@) == grep_results(files@),
            searches_view(final(self).found@) == results_for(
                PaletteMode::Grep,
                grep_results(files@),
                old(self).query@,
            ),
            final(self).selected == clamp_row(old(self).selected, final(self).found@.len() as int),
            final(self).cursor_in_range(),
            *final(self) == (CommandPaletteState {
                results: final(self).results,
                found: final(self).found,
                selected: final(self).selected,
                ..*old(self)
            }),
    {
        self.results = grep_items(files);
        self.update_query();
    }

    /// Closes the palette and clears the query (the list is kept).
    pub fn close(&mut self)
        ensures
            !final(self).active,
            final(self).query@.len() == 0,
            final(self).all_items == old(self).all_items,
            final(self).filtered == old(self).filtered,
            final(self).selected == old(self).selected,
            final(self).mode == old(self).mode,
            final(self).results == old(self).results,
            final(self).found == old(self).found,
    {
        self.active = false;
        self.query = String::new();
    }

    /// Lists the commands, or in a search the results, that the query finds
    /// (see `refiltered`).
    pub fn update_query(&mut self)
        ensures
            refiltered(*old(self), *final(self), old(self).query@),
            final(self).cursor_in_range(),
            *final(self) == (CommandPaletteState {
                filtered: final(self).filtered,
                found: final(self).found,
                selected: final(self).selected,
                ..*old(self)
            }),
    {
        if self.mode != PaletteMode::Actions {
            self.found = filter_results(self.mode, &self.results, self.query.as_str());
        } else if self.query.as_str().is_empty() {
            self.filtered = copy_items(&self.all_items);
        } else {
            let mut out: Vec<CommandItem> = Vec::new();
            let mut i: usize = 0;
            let ghost items = self.all_items@;
            while i < self.all_items.len()
                invariant
                    items == self.all_items@,
                    i <= items.len(),
                    out@ == matching_items(items.take(i as int), self.query@),
                decreases self.all_items.len() - i,
            {
                assert(items.take(i + 1).drop_last() =~= items.take(i as int));
                let it = &self.all_items[i];
                if it.matches_query(self.query.as_str()) {
                    let c = CommandItem {
                        name: it.name.clone(),
                        category: it.category.clone(),
                        shortcut: it.shortcut.clone(),
                        action: it.action,
                    };
                    out.push(c);
                }
                i = i + 1;
            }
            assert(items.take(items.len() as int) =~= items);
            self.filtered = out;
        }
        let n = if self.mode == PaletteMode::Actions { self.filtered.len() } else { self.found.len() };
        if self.selected >= n {
            self.selected = if n > 0 {
                n - 1
            } else {
                0
            };
        }
    }

    /// Highlights the entry above, if any.
    pub fn move_up(&mut self)
        ensures
            *final(self) == (CommandPaletteState {
                selected: if old(self).selected > 0 { (old(self).selected - 1) as usize } else { 0 },
                ..*old(self)
            }),
            old(self).cursor_in_range() ==> final(self).cursor_in_range(),
    {
        if self.selected > 0 {
            self.selected = self.selected - 1;
        }
    }

    /// Highlights the entry below, if any.
    pub fn move_down(&mut self)
        ensures
            *final(self) == (CommandPaletteState {
                selected: if old(self).selected + 1 < old(self).shown_len() {
                    (old(self).selected + 1) as usize
                } else {
                    old(self).selected
                },
                ..*old(self)
            }),
            old(self).cursor_in_range() ==> final(self).cursor_in_range(),
    {
        let n = if self.mode == PaletteMode::Actions { self.filtered.len() } else { self.found.len() };
        if n > 0 && self.selected < n - 1 {
            self.selected = self.selected + 1;
        }
    }

    /// The action of the highlighted entry.
    pub fn select_item(&self) -> (r: Option<MenuAction>)
        ensures
            r == (if self.selected < self.filtered@.len() {
                Some(self.filtered@[self.selected as int].action)
            } else {
                None
            }),
    {
        if self.selected < self.filtered.len() {
            Some(self.filtered[self.selected].action)
        } else {
            None
        }
    }

    /// Handles a key while the palette is open: Esc closes it, the arrows move
    /// the highlight, Enter closes it and runs the highlighted action, Backspace
    /// and typed characters (unless Ctrl and Alt are both held) edit the query
    /// and re-filter.
    pub fn handle_key_event(&mut self, key: KeyEvent) -> (r: CommandPaletteResult)
        ensures
            palette_stepped(*old(self), key, *final(self), r),
    {
        match key.code {
            KeyCode::Esc => {
                self.close();
                CommandPaletteResult::Close
            },
            KeyCode::Up => {
                self.move_up();
                CommandPaletteResult::Continue
            },
            KeyCode::Down => {
                self.move_down();
                CommandPaletteResult::Continue
            },
            KeyCode::Enter => {
                let r = if self.mode == PaletteMode::Actions {
                    match self.select_item() {
                        Some(a) => CommandPaletteResult::Action(a),
                        None => CommandPaletteResult::Close,
                    }
                } else if self.selected < self.found.len() {
                    let it = &self.found[self.selected];
                    CommandPaletteResult::Jump(it.path.clone(), it.is_dir)
                } else {
                    CommandPaletteResult::Close
                };
                self.close();
                r
            },
            KeyCode::Backspace => {
                let mut q = chars_of(self.query.as_str());
                q.pop();
                self.query = string_from_chars(&q);
                self.update_query();
                CommandPaletteResult::Continue
            },
            KeyCode::Char(c) => {
                if !(key.ctrl && key.alt) {
                    let mut q = chars_of(self.query.as_str());
                    q.push(c);
                    self.query = string_from_chars(&q);
                    assert(self.query@.len() > 0);
                    self.update_query();
                }
                CommandPaletteResult::Continue
            },
            _ => CommandPaletteResult::Continue,
        }
    }
}

/// Moving the highlight down and back up returns to the same entry, unless
/// it was on the last one.
pub proof fn law_down_then_up(
    p: CommandPaletteState,
    down: KeyEvent,
    q: CommandPaletteState,
    r1: CommandPaletteResult,
    up: KeyEvent,
    w: CommandPaletteState,
    r2: CommandPaletteResult,
)
    requires
        down.code == KeyCode::Down,
        up.code == KeyCode::Up,
        palette_stepped(p, down, q, r1),
        palette_stepped(q, up, w, r2),
        p.selected + 1 < p.shown_len(),
        p.shown_len() <= usize::MAX,
    ensures
        w == p,
{
    assert(q.selected == p.selected + 1);
    assert(q.filtered == p.filtered && q.found == p.found);
    assert(w.selected == p.selected);
}

} // verus!
