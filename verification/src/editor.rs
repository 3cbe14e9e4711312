//! The built-in file editor: lines of text, a cursor given as a line index and
//! a byte offset within that line, and undo/redo stacks of whole snapshots of
//! the text.
use vstd::prelude::*;
use crate::text::{
    all_ascii,
    byte_len, char_offset, clone_lines, concat_strings, insert_at_byte, insert_chars_at, is_boundary,
    join_lines, join_with_newlines, lemma_char_offset, lemma_utf8_len_take_le, prefix_at_byte, remove_at_byte,
    remove_char_at, split_at_byte, suffix_at_byte, utf8_len,
};

pub mod buffer;

verus! {

/// The state of an editor as plain values.
pub struct EditorView {
    pub lines: Seq<Seq<char>>,
    pub path: Option<Seq<char>>,
    pub modified: bool,
    pub active: bool,
    pub cursor_line: int,
    pub cursor_col: int,
    pub scroll_offset: int,
    pub undo: Seq<Seq<Seq<char>>>,
    pub redo: Seq<Seq<Seq<char>>>,
}

/// The line at `i`, or the empty line past the end.
pub open spec fn line_or_empty(lines: Seq<Seq<char>>, i: int) -> Seq<char> {
    if 0 <= i < lines.len() {
        lines[i]
    } else {
        Seq::empty()
    }
}

/// `lines` with an empty line appended when the cursor line is past the end.
pub open spec fn extend_to(lines: Seq<Seq<char>>, i: int) -> Seq<Seq<char>> {
    if i >= lines.len() {
        lines.push(Seq::empty())
    } else {
        lines
    }
}

impl EditorView {
    /// The snapshot of the current text is pushed on the undo stack and the
    /// redo stack is cleared.
    pub open spec fn pushed_undo(self) -> EditorView {
        EditorView { undo: self.undo.push(self.lines), redo: Seq::empty(), ..self }
    }

    pub open spec fn current_line(self) -> Seq<char> {
        line_or_empty(self.lines, self.cursor_line)
    }

    /// The last snapshot on the undo stack becomes the text; the text moves to
    /// the redo stack.
    pub open spec fn undone(self) -> EditorView {
        if self.undo.len() == 0 {
            self
        } else {
            EditorView {
                lines: self.undo.last(),
                undo: self.undo.drop_last(),
                redo: self.redo.push(self.lines),
                modified: true,
                ..self
            }
        }
    }

    /// The last snapshot on the redo stack becomes the text; the text moves to
    /// the undo stack.
    pub open spec fn redone(self) -> EditorView {
        if self.redo.len() == 0 {
            self
        } else {
            EditorView {
                lines: self.redo.last(),
                redo: self.redo.drop_last(),
                undo: self.undo.push(self.lines),
                modified: true,
                ..self
            }
        }
    }

    /// `t` can be inserted at the cursor without a panic.
    pub open spec fn can_insert(self, width: int) -> bool {
        &&& 0 <= self.cursor_line <= self.lines.len()
        &&& is_boundary(self.current_line(), self.cursor_col)
        &&& self.cursor_col + width <= usize::MAX
    }

    /// The characters `t` inserted at the cursor, which moves `advance` bytes on.
    pub open spec fn inserted(self, t: Seq<char>, advance: int) -> EditorView {
        let base = self.pushed_undo();
        let ls = extend_to(self.lines, self.cursor_line);
        EditorView {
            lines: ls.update(self.cursor_line, insert_at_byte(ls[self.cursor_line], self.cursor_col, t)),
            cursor_col: self.cursor_col + advance,
            modified: true,
            ..base
        }
    }

    /// `backspace` does not panic here.
    pub open spec fn can_backspace(self) -> bool {
        if self.cursor_col > 0 {
            &&& 0 <= self.cursor_line < self.lines.len()
            &&& is_boundary(self.lines[self.cursor_line], self.cursor_col - 1)
            &&& char_offset(self.lines[self.cursor_line], self.cursor_col - 1)
                < self.lines[self.cursor_line].len()
        } else {
            self.cursor_line > 0 ==> self.cursor_line < self.lines.len()
        }
    }

    pub open spec fn backspaced(self) -> EditorView {
        let cl = self.cursor_line;
        if self.cursor_col > 0 {
            EditorView {
                lines: self.lines.update(cl, remove_at_byte(self.lines[cl], self.cursor_col - 1)),
                cursor_col: self.cursor_col - 1,
                modified: true,
                ..self.pushed_undo()
            }
        } else if cl > 0 {
            let rest = self.lines.remove(cl);
            EditorView {
                lines: rest.update(cl - 1, self.lines[cl - 1] + self.lines[cl]),
                cursor_line: cl - 1,
                cursor_col: utf8_len(self.lines[cl - 1]) as int,
                modified: true,
                ..self.pushed_undo()
            }
        } else {
            self
        }
    }

    /// Byte length of the cursor line, 0 past the end.
    pub open spec fn current_len(self) -> int {
        utf8_len(self.current_line()) as int
    }

    /// `delete_char` does not panic here.
    pub open spec fn can_delete(self) -> bool {
        self.cursor_col < self.current_len() ==> is_boundary(self.current_line(), self.cursor_col)
    }

    pub open spec fn deleted(self) -> EditorView {
        let cl = self.cursor_line;
        if self.cursor_col < self.current_len() {
            EditorView {
                lines: self.lines.update(cl, remove_at_byte(self.lines[cl], self.cursor_col)),
                modified: true,
                ..self.pushed_undo()
            }
        } else if cl + 1 < self.lines.len() {
            let rest = self.lines.remove(cl + 1);
            EditorView {
                lines: rest.update(cl, self.lines[cl] + self.lines[cl + 1]),
                modified: true,
                ..self.pushed_undo()
            }
        } else {
            self
        }
    }

    /// `newline` does not panic here.
    pub open spec fn can_break_line(self) -> bool {
        &&& 0 <= self.cursor_line <= self.lines.len()
        &&& (self.cursor_col < self.current_len() ==> is_boundary(self.current_line(), self.cursor_col))
    }

    pub open spec fn line_broken(self) -> EditorView {
        let cl = self.cursor_line;
        let ls = extend_to(self.lines, cl);
        let cur = ls[cl];
        let (head, tail) = if self.cursor_col >= utf8_len(cur) {
            (cur, Seq::<char>::empty())
        } else {
            (prefix_at_byte(cur, self.cursor_col), suffix_at_byte(cur, self.cursor_col))
        };
        EditorView {
            lines: ls.update(cl, head).insert(cl + 1, tail),
            cursor_line: cl + 1,
            cursor_col: 0,
            modified: true,
            ..self.pushed_undo()
        }
    }
}

/// In ASCII text every prefix is as long in bytes as in characters.
proof fn lemma_ascii_prefix_bytes(s: Seq<char>, k: int)
    requires
        all_ascii(s),
        0 <= k <= s.len(),
    ensures
        utf8_len(s.take(k)) == k,
    decreases k,
{
    if k > 0 {
        let t = s.take(k);
        assert(t.drop_last() =~= s.take(k - 1));
        assert(t.last() == s[k - 1]);
        lemma_ascii_prefix_bytes(s, k - 1);
    }
}

/// On an ASCII line, with the cursor on a line of the text and at most at the
/// line's end, every edit can be made: typing (a character or a tab),
/// Backspace, Delete and breaking the line. So the undo and redo laws below
/// apply to each of these edits there.
pub proof fn law_ascii_edits_are_defined(v: EditorView)
    requires
        0 <= v.cursor_line < v.lines.len(),
        0 <= v.cursor_col <= v.lines[v.cursor_line].len(),
        all_ascii(v.lines[v.cursor_line]),
        v.cursor_col + 4 <= usize::MAX,
    ensures
        v.can_insert(1),
        v.can_insert(4),
        v.can_backspace(),
        v.can_delete(),
        v.can_break_line(),
{
    let s = v.lines[v.cursor_line];
    let col = v.cursor_col;
    assert(v.current_line() == s);
    lemma_ascii_prefix_bytes(s, col);
    assert(utf8_len(s.take(col)) == col);
    if col > 0 {
        lemma_ascii_prefix_bytes(s, col - 1);
        lemma_char_offset(s, col - 1);
        assert(char_offset(s, col - 1) == col - 1);
    }
}

/// Undoing right after typing (a character or a tab) gives back the text and
/// the undo history from before the typing, and the typed text can be redone.
pub proof fn law_undo_reverts_insert(v: EditorView, t: Seq<char>, advance: int)
    ensures
        v.inserted(t, advance).undone().lines == v.lines,
        v.inserted(t, advance).undone().undo == v.undo,
        v.inserted(t, advance).undone().redo == seq![v.inserted(t, advance).lines],
{
    assert(v.inserted(t, advance).undo.drop_last() =~= v.undo);
}

/// Undoing right after a backspace that changed the text gives back the text
/// and the undo history from before it.
pub proof fn law_undo_reverts_backspace(v: EditorView)
    requires
        v.cursor_col > 0 || v.cursor_line > 0,
    ensures
        v.backspaced().undone().lines == v.lines,
        v.backspaced().undone().undo == v.undo,
{
    assert(v.backspaced().undo.drop_last() =~= v.undo);
}

/// Undoing right after a deletion that changed the text gives back the text
/// and the undo history from before it.
pub proof fn law_undo_reverts_delete(v: EditorView)
    requires
        v.cursor_col < v.current_len() || v.cursor_line + 1 < v.lines.len(),
    ensures
        v.deleted().undone().lines == v.lines,
        v.deleted().undone().undo == v.undo,
{
    assert(v.deleted().undo.drop_last() =~= v.undo);
}

/// Undoing right after breaking a line gives back the text and the undo
/// history from before it.
pub proof fn law_undo_reverts_newline(v: EditorView)
    ensures
        v.line_broken().undone().lines == v.lines,
        v.line_broken().undone().undo == v.undo,
{
    assert(v.line_broken().undo.drop_last() =~= v.undo);
}

/// Breaking a line at a character boundary and pressing Backspace at the
/// start of the new line joins the two halves again: the text and the cursor
/// are those from before.
pub proof fn law_backspace_joins_broken_line(v: EditorView)
    requires
        0 <= v.cursor_line < v.lines.len(),
        is_boundary(v.lines[v.cursor_line], v.cursor_col),
    ensures
        v.line_broken().can_backspace(),
        v.line_broken().backspaced().lines == v.lines,
        v.line_broken().backspaced().cursor_line == v.cursor_line,
        v.line_broken().backspaced().cursor_col == v.cursor_col,
{
    let cl = v.cursor_line;
    let col = v.cursor_col;
    let cur = v.lines[cl];
    assert(extend_to(v.lines, cl) == v.lines);
    let k0 = choose|k: int| 0 <= k <= cur.len() && #[trigger] utf8_len(cur.take(k)) == col;
    lemma_utf8_len_take_le(cur, k0);
    let w = v.line_broken();
    if col >= utf8_len(cur) {
        assert(w.lines.remove(cl + 1) =~= v.lines);
        assert(cur + Seq::<char>::empty() =~= cur);
        assert(w.backspaced().lines =~= v.lines.update(cl, cur));
        assert(v.lines.update(cl, cur) =~= v.lines);
    } else {
        let k = char_offset(cur, col);
        let head = prefix_at_byte(cur, col);
        let tail = suffix_at_byte(cur, col);
        assert(head + tail =~= cur);
        assert(w.lines.remove(cl + 1) =~= v.lines.update(cl, head));
        assert(w.backspaced().lines =~= v.lines.update(cl, head + tail));
        assert(v.lines.update(cl, cur) =~= v.lines);
        assert(utf8_len(head) == col);
    }
}

/// Typing a character and deleting it with Backspace gives back the text
/// (with an empty line added when the cursor was past the last line) and the
/// cursor.
pub proof fn law_backspace_undoes_typing(v: EditorView, c: char)
    requires
        v.can_insert(1),
    ensures
        v.inserted(seq![c], 1).can_backspace(),
        v.inserted(seq![c], 1).backspaced().lines == extend_to(v.lines, v.cursor_line),
        v.inserted(seq![c], 1).backspaced().cursor_line == v.cursor_line,
        v.inserted(seq![c], 1).backspaced().cursor_col == v.cursor_col,
{
    let cl = v.cursor_line;
    let col = v.cursor_col;
    let ls = extend_to(v.lines, cl);
    let s = ls[cl];
    assert(v.current_line() == s);
    let k = char_offset(s, col);
    assert(0 <= k <= s.len() && utf8_len(s.take(k)) == col);
    let t = insert_at_byte(s, col, seq![c]);
    assert(t.take(k) =~= s.take(k));
    lemma_char_offset(t, k);
    assert(remove_at_byte(t, col) =~= s);
    let w = v.inserted(seq![c], 1);
    assert(w.lines[cl] == t);
    assert(w.lines.update(cl, s) =~= ls);
}

/// Every edit forgets what could be redone.
pub proof fn law_edit_clears_redo(v: EditorView, t: Seq<char>, advance: int)
    ensures
        v.inserted(t, advance).redo.len() == 0,
        v.line_broken().redo.len() == 0,
        (v.cursor_col > 0 || v.cursor_line > 0) ==> v.backspaced().redo.len() == 0,
        (v.cursor_col < v.current_len() || v.cursor_line + 1 < v.lines.len()) ==> v.deleted().redo.len() == 0,
{
}

/// Redo undoes an undo: both histories and the text come back; the editor is
/// then marked modified.
pub proof fn law_redo_after_undo(v: EditorView)
    requires
        v.undo.len() > 0,
    ensures
        v.undone().redone() == (EditorView { modified: true, ..v }),
{
    assert(v.undone().redone().undo =~= v.undo);
    assert(v.undone().redone().redo =~= v.redo);
}

/// Undo undoes a redo: both histories and the text come back; the editor is
/// then marked modified.
pub proof fn law_undo_after_redo(v: EditorView)
    requires
        v.redo.len() > 0,
    ensures
        v.redone().undone() == (EditorView { modified: true, ..v }),
{
    assert(v.redone().undone().undo =~= v.undo);
    assert(v.redone().undone().redo =~= v.redo);
}

/// With nothing to undo (or redo), undo (or redo) changes nothing.
pub proof fn law_empty_history_is_noop(v: EditorView)
    ensures
        v.undo.len() == 0 ==> v.undone() == v,
        v.redo.len() == 0 ==> v.redone() == v,
{
}

/// The four spaces that `insert_tab` inserts.
pub open spec fn tab_chars() -> Seq<char> {
    seq![' ', ' ', ' ', ' ']
}

/// A file opened for editing, with undo and redo of whole snapshots.
#[derive(Debug, Clone)]
pub struct EditorState {
    pub content: Vec<String>,
    pub path: Option<String>,
    pub modified: bool,
    pub active: bool,
    pub cursor_line: usize,
    pub cursor_col: usize,
    pub scroll_offset: usize,
    pub undo_stack: Vec<Vec<String>>,
    pub redo_stack: Vec<Vec<String>>,
}

pub open spec fn opt_view(p: Option<String>) -> Option<Seq<char>> {
    match p {
        Some(s) => Some(s@),
        None => None,
    }
}

impl EditorState {
    /// The snapshots that `undo` restores, the most recent last.
    pub open spec fn undo_states(&self) -> Seq<Seq<Seq<char>>> {
        self.undo_stack.deep_view()
    }

    /// The snapshots that `redo` restores, the most recent last.
    pub open spec fn redo_states(&self) -> Seq<Seq<Seq<char>>> {
        self.redo_stack.deep_view()
    }
}

impl View for EditorState {
    type V = EditorView;

    open spec fn view(&self) -> EditorView {
        EditorView {
            lines: self.content.deep_view(),
            path: opt_view(self.path),
            modified: self.modified,
            active: self.active,
            cursor_line: self.cursor_line as int,
            cursor_col: self.cursor_col as int,
            scroll_offset: self.scroll_offset as int,
            undo: self.undo_states(),
            redo: self.redo_states(),
        }
    }
}

impl EditorState {
    /// An inactive editor with no text and empty histories.
    pub fn new() -> (e: Self)
        ensures
            e@ == (EditorView {
                lines: Seq::empty(),
                path: None,
                modified: false,
                active: false,
                cursor_line: 0,
                cursor_col: 0,
                scroll_offset: 0,
                undo: Seq::empty(),
                redo: Seq::empty(),
            }),
    {
        let e = EditorState {
            content: Vec::new(),
            path: None,
            modified: false,
            active: false,
            cursor_line: 0,
            cursor_col: 0,
            scroll_offset: 0,
            undo_stack: Vec::new(),
            redo_stack: Vec::new(),
        };
        assert(e@.lines =~= Seq::empty());
        assert(e.undo_states() =~= Seq::empty());
        assert(e.redo_states() =~= Seq::empty());
        e
    }

    /// Starts editing `content` read from `path`: cursor at the start,
    /// unmodified, empty histories.
    pub fn open(&mut self, content: Vec<String>, path: String)
        ensures
            final(self)@ == (EditorView {
                lines: content.deep_view(),
                path: Some(path@),
                modified: false,
                active: true,
                cursor_line: 0,
                cursor_col: 0,
                scroll_offset: 0,
                undo: Seq::empty(),
                redo: Seq::empty(),
            }),
    {
        self.content = content;
        self.path = Some(path);
        self.modified = false;
        self.active = true;
        self.cursor_line = 0;
        self.cursor_col = 0;
        self.scroll_offset = 0;
        self.undo_stack.clear();
        self.redo_stack.clear();
        assert(self.undo_states() =~= Seq::empty());
        assert(self.redo_states() =~= Seq::empty());
    }

    /// The file to write and the text to write into it (the lines joined with
    /// `'\n'`), or `None` when no file is open.
    pub fn save_request(&self) -> (r: Option<(String, String)>)
        ensures
            match self.path {
                Some(p) => r matches Some((q, t)) && q@ == p@ && t@ == join_lines(self@.lines),
                None => r is None,
            },
    {
        match &self.path {
            Some(p) => Some((p.clone(), join_with_newlines(&self.content))),
            None => None,
        }
    }

    /// Records the outcome of writing the text of `save_request`: a file is
    /// open and the write succeeded exactly when it returns `true`, and then
    /// the editor is no longer modified.
    pub fn save(&mut self, written: bool) -> (saved: bool)
        ensures
            saved == (old(self).path is Some && written),
            final(self)@ == (if saved { EditorView { modified: false, ..old(self)@ } } else { old(self)@ }),
    {
        if self.path.is_some() && written {
            self.modified = false;
            true
        } else {
            false
        }
    }

    /// Leaves the editor: inactive, no file, no text, cursor at the start,
    /// empty histories.
    pub fn close(&mut self)
        ensures
            final(self)@ == (EditorView {
                lines: Seq::empty(),
                path: None,
                modified: false,
                active: false,
                cursor_line: 0,
                cursor_col: 0,
                scroll_offset: 0,
                undo: Seq::empty(),
                redo: Seq::empty(),
            }),
    {
        self.active = false;
        self.path = None;
        self.content.clear();
        self.modified = false;
        self.cursor_line = 0;
        self.cursor_col = 0;
        self.scroll_offset = 0;
        self.undo_stack.clear();
        self.redo_stack.clear();
        assert(self.content.deep_view() =~= Seq::empty());
        assert(self.undo_states() =~= Seq::empty());
        assert(self.redo_states() =~= Seq::empty());
    }

    /// Saves a snapshot of the text for `undo` and forgets what `redo` could
    /// restore.
    pub fn push_undo(&mut self)
        ensures
            final(self)@ == old(self)@.pushed_undo(),
    {
        let snapshot = clone_lines(&self.content);
        self.undo_stack.push(snapshot);
        self.redo_stack.clear();
        assert(self.undo_states() =~= old(self)@.undo.push(old(self)@.lines));
        assert(self.redo_states() =~= Seq::empty());
    }

    /// Restores the last snapshot, keeping the current text for `redo`; does
    /// nothing when there is nothing to undo.
    pub fn undo(&mut self)
        ensures
            final(self)@ == old(self)@.undone(),
    {
        let ghost before = self.undo_stack.deep_view();
        if let Some(prev) = self.undo_stack.pop() {
            let current = clone_lines(&self.content);
            self.redo_stack.push(current);
            self.content = prev;
            self.modified = true;
            assert(self.undo_states() =~= before.drop_last());
            assert(self.redo_states() =~= old(self)@.redo.push(old(self)@.lines));
        }
    }

    /// Restores the snapshot that the last `undo` replaced, keeping the current
    /// text for `undo`; does nothing when there is nothing to redo.
    pub fn redo(&mut self)
        ensures
            final(self)@ == old(self)@.redone(),
    {
        let ghost before = self.redo_stack.deep_view();
        if let Some(next) = self.redo_stack.pop() {
            let current = clone_lines(&self.content);
            self.undo_stack.push(current);
            self.content = next;
            self.modified = true;
            assert(self.redo_states() =~= before.drop_last());
            assert(self.undo_states() =~= old(self)@.undo.push(old(self)@.lines));
        }
    }

    /// Inserts the characters at the cursor, after saving a snapshot; an empty
    /// line is added first when the cursor is past the last line.
    fn insert_at_cursor(&mut self, t: &Vec<char>, advance: usize)
        requires
            old(self)@.can_insert(advance as int),
        ensures
            final(self)@ == old(self)@.inserted(t@, advance as int),
    {
        self.push_undo();
        if self.cursor_line >= self.content.len() {
            self.content.push(String::new());
        }
        let ghost ls = self.content.deep_view();
        let line = insert_chars_at(&self.content[self.cursor_line], self.cursor_col, t);
        self.content.set(self.cursor_line, line);
        self.cursor_col = self.cursor_col + advance;
        self.modified = true;
        assert(self.content.deep_view() =~= ls.update(
            old(self).cursor_line as int,
            insert_at_byte(ls[old(self).cursor_line as int], old(self).cursor_col as int, t@),
        ));
        assert(ls =~= extend_to(old(self)@.lines, old(self).cursor_line as int));
    }

    /// Types `c` at the cursor (`String::insert` at the cursor's byte offset)
    /// and moves the cursor one byte on.
    pub fn insert_char(&mut self, c: char)
        requires
            old(self)@.can_insert(1),
        ensures
            final(self)@ == old(self)@.inserted(seq![c], 1),
    {
        let t = vec![c];
        assert(t@ =~= seq![c]);
        self.insert_at_cursor(&t, 1);
    }

    /// Inserts four spaces at the cursor and moves the cursor past them.
    pub fn insert_tab(&mut self)
        requires
            old(self)@.can_insert(4),
        ensures
            final(self)@ == old(self)@.inserted(tab_chars(), 4),
    {
        let t = vec![' ', ' ', ' ', ' '];
        assert(t@ =~= tab_chars());
        self.insert_at_cursor(&t, 4);
    }

    /// Deletes the character before the cursor (the one that starts one byte
    /// before it), or at the start of a line joins it to the previous line.
    pub fn backspace(&mut self)
        requires
            old(self)@.can_backspace(),
        ensures
            final(self)@ == old(self)@.backspaced(),
    {
        if self.cursor_col > 0 {
            self.push_undo();
            let ghost ls = self.content.deep_view();
            let line = remove_char_at(&self.content[self.cursor_line], self.cursor_col - 1);
            self.content.set(self.cursor_line, line);
            self.cursor_col = self.cursor_col - 1;
            self.modified = true;
            assert(self.content.deep_view() =~= ls.update(
                old(self).cursor_line as int,
                remove_at_byte(ls[old(self).cursor_line as int], old(self).cursor_col - 1),
            ));
        } else if self.cursor_line > 0 {
            self.push_undo();
            let ghost ls = self.content.deep_view();
            let current = self.content.remove(self.cursor_line);
            self.cursor_line = self.cursor_line - 1;
            self.cursor_col = byte_len(self.content[self.cursor_line].as_str());
            let joined = concat_strings(&self.content[self.cursor_line], &current);
            self.content.set(self.cursor_line, joined);
            self.modified = true;
            let ghost cl = old(self).cursor_line as int;
            assert(self.content.deep_view() =~= ls.remove(cl).update(cl - 1, ls[cl - 1] + ls[cl]));
        }
    }

    /// Deletes the character at the cursor, or at the end of a line joins the
    /// next line to it.
    pub fn delete_char(&mut self)
        requires
            old(self)@.can_delete(),
        ensures
            final(self)@ == old(self)@.deleted(),
    {
        let line_len = if self.cursor_line < self.content.len() {
            byte_len(self.content[self.cursor_line].as_str())
        } else {
            0
        };
        if self.cursor_col < line_len {
            self.push_undo();
            let ghost ls = self.content.deep_view();
            proof {
                let k = char_offset(ls[self.cursor_line as int], self.cursor_col as int);
                lemma_utf8_len_take_le(ls[self.cursor_line as int], k);
                if k == ls[self.cursor_line as int].len() {
                    assert(ls[self.cursor_line as int].take(k) =~= ls[self.cursor_line as int]);
                }
            }
            let line = remove_char_at(&self.content[self.cursor_line], self.cursor_col);
            self.content.set(self.cursor_line, line);
            self.modified = true;
            assert(self.content.deep_view() =~= ls.update(
                old(self).cursor_line as int,
                remove_at_byte(ls[old(self).cursor_line as int], old(self).cursor_col as int),
            ));
        } else if self.content.len() > 0 && self.cursor_line < self.content.len() - 1 {
            self.push_undo();
            let ghost ls = self.content.deep_view();
            let next_line = self.content.remove(self.cursor_line + 1);
            let joined = concat_strings(&self.content[self.cursor_line], &next_line);
            self.content.set(self.cursor_line, joined);
            self.modified = true;
            let ghost cl = old(self).cursor_line as int;
            assert(self.content.deep_view() =~= ls.remove(cl + 1).update(cl, ls[cl] + ls[cl + 1]));
        }
    }

    /// Breaks the line at the cursor; the cursor moves to the start of the new
    /// line.
    pub fn newline(&mut self)
        requires
            old(self)@.can_break_line(),
        ensures
            final(self)@ == old(self)@.line_broken(),
    {
        self.push_undo();
        if self.cursor_line >= self.content.len() {
            self.content.push(String::new());
        }
        let ghost ls = self.content.deep_view();
        let cl = self.cursor_line;
        let n = self.content.len();
        assert(cl < n);
        let len = byte_len(self.content[cl].as_str());
        if self.cursor_col >= len {
            self.content.insert(cl + 1, String::new());
            assert(self.content.deep_view() =~= ls.update(cl as int, ls[cl as int]).insert(
                cl + 1,
                Seq::empty(),
            ));
        } else {
            let (head, tail) = split_at_byte(&self.content[cl], self.cursor_col);
            self.content.set(cl, head);
            self.content.insert(cl + 1, tail);
            assert(self.content.deep_view() =~= ls.update(
                cl as int,
                prefix_at_byte(ls[cl as int], old(self).cursor_col as int),
            ).insert(cl + 1, suffix_at_byte(ls[cl as int], old(self).cursor_col as int)));
        }
        self.cursor_line = cl + 1;
        self.cursor_col = 0;
        self.modified = true;
        assert(ls =~= extend_to(old(self)@.lines, cl as int));
    }
}

} // verus!
