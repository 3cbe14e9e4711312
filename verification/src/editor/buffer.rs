//! The text buffer of the editor pane: lines, a cursor (line index and byte
//! offset), a scroll position, and the plain-text rendering of the visible
//! rows.
use vstd::prelude::*;
use crate::text::{
    byte_len, char_offset, chars_of, concat_strings, insert_at_byte, insert_chars_at, is_boundary,
    join_lines, join_with_newlines, prefix_at_byte, push_all, remove_at_byte, remove_char_at,
    split_at_byte, split_lines, string_from_chars, suffix_at_byte, text_lines, utf8_len,
    lemma_join_text_lines,
};

verus! {

/// The text being edited, with the cursor and the first visible line.
#[derive(Debug, Clone)]
pub struct EditorState {
    pub content: Vec<String>,
    pub cursor_line: usize,
    pub cursor_col: usize,
    pub scroll_offset: usize,
    pub modified: bool,
}

/// The line at `i`, or the empty line past the end.
pub open spec fn line_at(lines: Seq<Seq<char>>, i: int) -> Seq<char> {
    if 0 <= i < lines.len() {
        lines[i]
    } else {
        Seq::empty()
    }
}

/// The column `col` kept within a line of `len` bytes.
/// The cursor one byte to the left, or at the end of the previous line when
/// it stood at the start of a line; at the very start it stays.
pub open spec fn moved_left(lines: Seq<Seq<char>>, cl: int, col: int) -> (int, int) {
    if col > 0 {
        (cl, col - 1)
    } else if cl > 0 {
        (cl - 1, utf8_len(lines[cl - 1]) as int)
    } else {
        (cl, col)
    }
}

/// The cursor one byte to the right, or at the start of the next line when it
/// stood at the end of a line; on the last line's end, or past the last line,
/// it stays.
pub open spec fn moved_right(lines: Seq<Seq<char>>, cl: int, col: int) -> (int, int) {
    if cl < lines.len() && col < utf8_len(lines[cl]) {
        (cl, col + 1)
    } else if cl + 1 < lines.len() {
        (cl + 1, 0)
    } else {
        (cl, col)
    }
}

/// Moving right undoes moving left, across the start of a line too, wherever
/// the cursor stands within the text but at its very start.
pub proof fn law_move_right_undoes_move_left(lines: Seq<Seq<char>>, cl: int, col: int)
    requires
        0 <= cl < lines.len(),
        0 <= col <= utf8_len(lines[cl]),
        cl > 0 || col > 0,
    ensures
        ({
            let (l, c) = moved_left(lines, cl, col);
            moved_right(lines, l, c)
        }) == (cl, col),
{
}

/// A text with no `'\r'` and no final `'\n'` comes back whole from
/// `to_string` of the buffer that `new` makes of it.
pub proof fn law_to_string_gives_back_new(content: Seq<char>)
    requires
        !content.contains('\r'),
        content.len() == 0 || content.last() != '\n',
    ensures
        join_lines(text_lines(content)) == content,
{
    lemma_join_text_lines(content);
}

pub open spec fn clamp(col: int, len: int) -> int {
    if col > len {
        len
    } else {
        col
    }
}

impl Default for EditorState {
    fn default() -> (e: Self)
        ensures
            e.content@.len() == 0,
            e.cursor_line == 0,
            e.cursor_col == 0,
            e.scroll_offset == 0,
            !e.modified,
    {
        EditorState {
            content: Vec::new(),
            cursor_line: 0,
            cursor_col: 0,
            scroll_offset: 0,
            modified: false,
        }
    }
}

impl EditorState {
    pub open spec fn lines(&self) -> Seq<Seq<char>> {
        self.content.deep_view()
    }

    /// The line under the cursor (empty past the end).
    pub open spec fn cursor_text(&self) -> Seq<char> {
        line_at(self.lines(), self.cursor_line as int)
    }

    /// A buffer holding the lines of `content` (as `str::lines` splits them),
    /// cursor and scroll at the start, unmodified.
    pub fn new(content: String) -> (e: Self)
        ensures
            e.lines() == text_lines(content@),
            e.cursor_line == 0,
            e.cursor_col == 0,
            e.scroll_offset == 0,
            !e.modified,
    {
        let lines = split_lines(content.as_str());
        EditorState { content: lines, cursor_line: 0, cursor_col: 0, scroll_offset: 0, modified: false }
    }

    /// The text: the lines joined with `'\n'`.
    pub fn to_string(&self) -> (s: String)
        ensures
            s@ == join_lines(self.lines()),
    {
        join_with_newlines(&self.content)
    }

    /// Types `ch` at the cursor, clamped to the end of its line first; an empty
    /// line is added when the cursor is past the last line.
    pub fn insert_char(&mut self, ch: char)
        requires
            old(self).cursor_line <= old(self).content@.len(),
            is_boundary(
                old(self).cursor_text(),
                clamp(old(self).cursor_col as int, utf8_len(old(self).cursor_text()) as int),
            ),
            clamp(old(self).cursor_col as int, utf8_len(old(self).cursor_text()) as int) < usize::MAX,
        ensures
            ({
                let cl = old(self).cursor_line as int;
                let ls = if cl == old(self).lines().len() {
                    old(self).lines().push(Seq::empty())
                } else {
                    old(self).lines()
                };
                let col = clamp(old(self).cursor_col as int, utf8_len(ls[cl]) as int);
                &&& final(self).lines() == ls.update(cl, insert_at_byte(ls[cl], col, seq![ch]))
                &&& final(self).cursor_col == col + 1
                &&& final(self).cursor_line == old(self).cursor_line
                &&& final(self).scroll_offset == old(self).scroll_offset
                &&& final(self).modified
            }),
    {
        if self.cursor_line >= self.content.len() {
            self.content.push(String::new());
        }
        let ghost ls = self.lines();
        let len = byte_len(self.content[self.cursor_line].as_str());
        if self.cursor_col > len {
            self.cursor_col = len;
        }
        let t = vec![ch];
        let line = insert_chars_at(&self.content[self.cursor_line], self.cursor_col, &t);
        self.content.set(self.cursor_line, line);
        self.cursor_col = self.cursor_col + 1;
        self.modified = true;
        assert(t@ =~= seq![ch]);
        assert(self.lines() =~= ls.update(
            self.cursor_line as int,
            insert_at_byte(ls[self.cursor_line as int], self.cursor_col - 1, seq![ch]),
        ));
    }

    /// Breaks the line at the cursor (the whole line stays when the cursor is
    /// at or past its end); the cursor moves to the start of the new line.
    pub fn insert_newline(&mut self)
        requires
            old(self).cursor_line <= old(self).content@.len(),
            (old(self).cursor_col as int) < utf8_len(old(self).cursor_text()) ==> is_boundary(
                old(self).cursor_text(),
                old(self).cursor_col as int,
            ),
        ensures
            ({
                let cl = old(self).cursor_line as int;
                let ls = if cl == old(self).lines().len() {
                    old(self).lines().push(Seq::empty())
                } else {
                    old(self).lines()
                };
                let col = old(self).cursor_col as int;
                let cur = ls[cl];
                let head = if col >= utf8_len(cur) { cur } else { prefix_at_byte(cur, col) };
                let tail = if col >= utf8_len(cur) { Seq::empty() } else { suffix_at_byte(cur, col) };
                &&& final(self).lines() == ls.update(cl, head).insert(cl + 1, tail)
                &&& final(self).cursor_line == cl + 1
                &&& final(self).cursor_col == 0
                &&& final(self).scroll_offset == old(self).scroll_offset
                &&& final(self).modified
            }),
    {
        if self.cursor_line >= self.content.len() {
            self.content.push(String::new());
        }
        let ghost ls = self.lines();
        let cl = self.cursor_line;
        let n = self.content.len();
        assert(cl < n);
        let len = byte_len(self.content[cl].as_str());
        if self.cursor_col >= len {
            self.content.insert(cl + 1, String::new());
            assert(self.lines() =~= ls.update(cl as int, ls[cl as int]).insert(cl + 1, Seq::empty()));
        } else {
            let (head, tail) = split_at_byte(&self.content[cl], self.cursor_col);
            self.content.set(cl, head);
            self.content.insert(cl + 1, tail);
            assert(self.lines() =~= ls.update(
                cl as int,
                prefix_at_byte(ls[cl as int], old(self).cursor_col as int),
            ).insert(cl + 1, suffix_at_byte(ls[cl as int], old(self).cursor_col as int)));
        }
        self.cursor_line = cl + 1;
        self.cursor_col = 0;
        self.modified = true;
    }

    /// Deletes the character before the cursor (the one starting one byte
    /// before it); at the start of a line, joins the line to the previous one
    /// and puts the cursor at the join. Past the last line, or with the cursor
    /// past the end of its line, nothing changes.
    pub fn delete_char(&mut self)
        requires
            ({
                let cl = old(self).cursor_line as int;
                let col = old(self).cursor_col as int;
                cl < old(self).lines().len() && 0 < col <= utf8_len(old(self).lines()[cl]) ==> {
                    &&& is_boundary(old(self).lines()[cl], col - 1)
                    &&& char_offset(old(self).lines()[cl], col - 1) < old(self).lines()[cl].len()
                }
            }),
        ensures
            ({
                let ls = old(self).lines();
                let cl = old(self).cursor_line as int;
                let col = old(self).cursor_col as int;
                &&& final(self).scroll_offset == old(self).scroll_offset
                &&& if cl >= ls.len() || (col > utf8_len(ls[cl])) || (col == 0 && cl == 0) {
                    &&& final(self).lines() == ls
                    &&& final(self).cursor_line == cl
                    &&& final(self).cursor_col == col
                    &&& final(self).modified == old(self).modified
                } else if col == 0 {
                    &&& final(self).lines() == ls.remove(cl).update(cl - 1, ls[cl - 1] + ls[cl])
                    &&& final(self).cursor_line == cl - 1
                    &&& final(self).cursor_col == utf8_len(ls[cl - 1])
                    &&& final(self).modified
                } else {
                    &&& final(self).lines() == ls.update(cl, remove_at_byte(ls[cl], col - 1))
                    &&& final(self).cursor_line == cl
                    &&& final(self).cursor_col == col - 1
                    &&& final(self).modified
                }
            }),
    {
        if self.cursor_line >= self.content.len() {
            return ;
        }
        let ghost ls = self.lines();
        let cl = self.cursor_line;
        if self.cursor_col == 0 {
            if cl > 0 {
                let prev_line_len = byte_len(self.content[cl - 1].as_str());
                let current = self.content.remove(cl);
                let joined = concat_strings(&self.content[cl - 1], &current);
                self.content.set(cl - 1, joined);
                self.cursor_line = cl - 1;
                self.cursor_col = prev_line_len;
                self.modified = true;
                assert(self.lines() =~= ls.remove(cl as int).update(cl - 1, ls[cl - 1] + ls[cl as int]));
            }
        } else {
            let len = byte_len(self.content[cl].as_str());
            if self.cursor_col <= len {
                let line = remove_char_at(&self.content[cl], self.cursor_col - 1);
                self.content.set(cl, line);
                self.cursor_col = self.cursor_col - 1;
                self.modified = true;
                assert(self.lines() =~= ls.update(
                    cl as int,
                    remove_at_byte(ls[cl as int], old(self).cursor_col - 1),
                ));
            }
        }
    }

    /// Moves up a line, keeping the column within the new line.
    pub fn move_up(&mut self)
        requires
            old(self).cursor_line > 0 ==> old(self).cursor_line <= old(self).content@.len(),
        ensures
            final(self).lines() == old(self).lines(),
            final(self).scroll_offset == old(self).scroll_offset,
            final(self).modified == old(self).modified,
            if old(self).cursor_line > 0 {
                &&& final(self).cursor_line == old(self).cursor_line - 1
                &&& final(self).cursor_col == clamp(
                    old(self).cursor_col as int,
                    utf8_len(old(self).lines()[old(self).cursor_line - 1]) as int,
                )
            } else {
                &&& final(self).cursor_line == old(self).cursor_line
                &&& final(self).cursor_col == old(self).cursor_col
            },
    {
        if self.cursor_line > 0 {
            self.cursor_line = self.cursor_line - 1;
            let len = byte_len(self.content[self.cursor_line].as_str());
            if self.cursor_col > len {
                self.cursor_col = len;
            }
        }
    }

    /// Moves down a line when there is one, keeping the column within it.
    pub fn move_down(&mut self)
        ensures
            final(self).lines() == old(self).lines(),
            final(self).scroll_offset == old(self).scroll_offset,
            final(self).modified == old(self).modified,
            if old(self).cursor_line + 1 < old(self).content@.len() {
                &&& final(self).cursor_line == old(self).cursor_line + 1
                &&& final(self).cursor_col == clamp(
                    old(self).cursor_col as int,
                    utf8_len(old(self).lines()[old(self).cursor_line + 1]) as int,
                )
            } else {
                &&& final(self).cursor_line == old(self).cursor_line
                &&& final(self).cursor_col == old(self).cursor_col
            },
    {
        if self.content.len() > 0 && self.cursor_line < self.content.len() - 1 {
            self.cursor_line = self.cursor_line + 1;
            let len = byte_len(self.content[self.cursor_line].as_str());
            if self.cursor_col > len {
                self.cursor_col = len;
            }
        }
    }

    /// Moves one byte left, or from the start of a line to the end of the
    /// previous one.
    pub fn move_left(&mut self)
        requires
            old(self).cursor_col == 0 && old(self).cursor_line > 0 ==> old(self).cursor_line
                <= old(self).content@.len(),
        ensures
            final(self).lines() == old(self).lines(),
            final(self).scroll_offset == old(self).scroll_offset,
            final(self).modified == old(self).modified,
            (final(self).cursor_line as int, final(self).cursor_col as int) == moved_left(
                old(self).lines(),
                old(self).cursor_line as int,
                old(self).cursor_col as int,
            ),
    {
        if self.cursor_col > 0 {
            self.cursor_col = self.cursor_col - 1;
        } else if self.cursor_line > 0 {
            self.cursor_line = self.cursor_line - 1;
            self.cursor_col = byte_len(self.content[self.cursor_line].as_str());
        }
    }

    /// Moves one byte right, or from the end of a line to the start of the
    /// next one; past the last line nothing moves.
    pub fn move_right(&mut self)
        ensures
            final(self).lines() == old(self).lines(),
            final(self).scroll_offset == old(self).scroll_offset,
            final(self).modified == old(self).modified,
            (final(self).cursor_line as int, final(self).cursor_col as int) == moved_right(
                old(self).lines(),
                old(self).cursor_line as int,
                old(self).cursor_col as int,
            ),
    {
        if self.cursor_line < self.content.len() {
            let line_len = byte_len(self.content[self.cursor_line].as_str());
            if self.cursor_col < line_len {
                self.cursor_col = self.cursor_col + 1;
            } else if self.cursor_line < self.content.len() - 1 {
                self.cursor_line = self.cursor_line + 1;
                self.cursor_col = 0;
            }
        }
    }

    /// Moves to the start of the line.
    pub fn move_to_start(&mut self)
        ensures
            *final(self) == (EditorState { cursor_col: 0, ..*old(self) }),
    {
        self.cursor_col = 0;
    }

    /// Moves to the end of the line (nothing moves past the last line).
    pub fn move_to_end(&mut self)
        ensures
            final(self).lines() == old(self).lines(),
            final(self).cursor_line == old(self).cursor_line,
            final(self).scroll_offset == old(self).scroll_offset,
            final(self).modified == old(self).modified,
            final(self).cursor_col == (if old(self).cursor_line < old(self).content@.len() {
                utf8_len(old(self).lines()[old(self).cursor_line as int]) as int
            } else {
                old(self).cursor_col as int
            }),
    {
        if self.cursor_line < self.content.len() {
            self.cursor_col = byte_len(self.content[self.cursor_line].as_str());
        }
    }

    /// Scrolls just enough for the cursor line to be among the
    /// `visible_lines` rows shown from the scroll position.
    pub fn update_scroll(&mut self, visible_lines: usize)
        requires
            old(self).scroll_offset + visible_lines <= usize::MAX,
            visible_lines > 0 || old(self).cursor_line < usize::MAX,
        ensures
            *final(self) == (EditorState {
                scroll_offset: (if old(self).cursor_line < old(self).scroll_offset {
                    old(self).cursor_line
                } else if old(self).cursor_line >= old(self).scroll_offset + visible_lines {
                    (old(self).cursor_line - visible_lines + 1) as usize
                } else {
                    old(self).scroll_offset
                }),
                ..*old(self)
            }),
    {
        if self.cursor_line < self.scroll_offset {
            self.scroll_offset = self.cursor_line;
        } else if self.cursor_line >= self.scroll_offset + visible_lines {
            self.scroll_offset = self.cursor_line - visible_lines + 1;
        }
    }
}

/// The text a line is shown as: cut to `width - 2` bytes with a `'<'` marker
/// when longer.
pub open spec fn display_line(line: Seq<char>, width: int) -> Seq<char> {
    if utf8_len(line) > width - 2 {
        prefix_at_byte(line, width - 2).push('<')
    } else {
        line
    }
}

/// One rendered row of a line, `'\n'` included: the cursor row is `width`
/// cells, with `'|'` at the cursor column and the displayed characters (by
/// index) before the displayed line's byte length; other rows are the
/// displayed line padded with spaces to `width` bytes.
pub open spec fn render_line(line: Seq<char>, is_cursor: bool, cursor_col: int, width: int) -> Seq<char> {
    let d = display_line(line, width);
    let body = if is_cursor {
        Seq::new(
            width as nat,
            |j: int|
                if j == cursor_col {
                    '|'
                } else if j < utf8_len(d) && j < d.len() {
                    d[j]
                } else {
                    ' '
                },
        )
    } else {
        d + Seq::new((if width > utf8_len(d) { width - utf8_len(d) } else { 0 }) as nat, |j: int| ' ')
    };
    body.push('\n')
}

/// Row `i` of the editor pane: the line at `scroll + i`, or `"~\n"` past the
/// end of the text.
pub open spec fn render_row(e: EditorState, width: int, i: int) -> Seq<char> {
    let idx = e.scroll_offset + i;
    if idx >= e.content@.len() {
        seq!['~', '\n']
    } else {
        render_line(e.lines()[idx], idx == e.cursor_line, e.cursor_col as int, width)
    }
}

/// The first `n` rows, concatenated.
pub open spec fn render_rows(e: EditorState, width: int, n: int) -> Seq<char>
    decreases n,
{
    if n <= 0 {
        Seq::empty()
    } else {
        render_rows(e, width, n - 1) + render_row(e, width, n - 1)
    }
}

/// Rendering does not panic: the row indices fit in a `usize`, and every
/// shown line can be cut at `width - 2` bytes.
pub open spec fn can_render(e: EditorState, width: int, height: int) -> bool {
    let visible = if height >= 2 { height - 2 } else { 0 };
    &&& e.scroll_offset + visible <= usize::MAX
    &&& forall|i: int|
        0 <= i < visible && e.scroll_offset + i < e.content@.len() ==> {
            &&& width >= 2
            &&& (utf8_len(#[trigger] e.lines()[e.scroll_offset + i]) > width - 2 ==> is_boundary(
                e.lines()[e.scroll_offset + i],
                width - 2,
            ))
        }
}

fn push_line(out: &mut Vec<char>, line: &String, is_cursor: bool, cursor_col: usize, width: usize)
    requires
        width >= 2,
        utf8_len(line@) > width - 2 ==> is_boundary(line@, width - 2),
    ensures
        final(out)@ == old(out)@ + render_line(line@, is_cursor, cursor_col as int, width as int),
{
    let len = byte_len(line.as_str());
    let d: Vec<char> = if len > width - 2 {
        let (head, _tail) = split_at_byte(line, width - 2);
        let mut v = chars_of(head.as_str());
        v.push('<');
        v
    } else {
        chars_of(line.as_str())
    };
    let ghost dv = display_line(line@, width as int);
    assert(d@ == dv);
    let dlen = if len > width - 2 {
        let (head, _tail) = split_at_byte(line, width - 2);
        byte_len(head.as_str()) + 1
    } else {
        len
    };
    proof {
        if len > width - 2 {
            crate::text::lemma_utf8_len_take_succ(dv, dv.len() - 1);
            assert(dv.take(dv.len() - 1) =~= dv.drop_last());
            assert(dv.take(dv.len() as int) =~= dv);
            assert(dv.drop_last() =~= prefix_at_byte(line@, width - 2));
        }
    }
    assert(dlen == utf8_len(dv));
    let ghost start = out@;
    let ghost body = if is_cursor {
        Seq::new(
            width as nat,
            |j: int|
                if j == cursor_col {
                    '|'
                } else if j < utf8_len(dv) && j < dv.len() {
                    dv[j]
                } else {
                    ' '
                },
        )
    } else {
        dv + Seq::new((if width > utf8_len(dv) { width - utf8_len(dv) } else { 0 }) as nat, |j: int| ' ')
    };
    if is_cursor {
        let mut j: usize = 0;
        while j < width
            invariant
                j <= width,
                out@ == start + body.take(j as int),
                d@ == dv,
                dlen == utf8_len(dv),
                is_cursor,
                body == Seq::new(
                    width as nat,
                    |j: int|
                        if j == cursor_col {
                            '|'
                        } else if j < utf8_len(dv) && j < dv.len() {
                            dv[j]
                        } else {
                            ' '
                        },
                ),
            decreases width - j,
        {
            let c = if j == cursor_col {
                '|'
            } else if j < dlen && j < d.len() {
                d[j]
            } else {
                ' '
            };
            out.push(c);
            assert(start + body.take(j + 1) =~= out@);
            j = j + 1;
        }
        assert(body.take(width as int) =~= body);
    } else {
        push_all(out, &d);
        let pad = if width > dlen { width - dlen } else { 0 };
        let mut k: usize = 0;
        while k < pad
            invariant
                k <= pad,
                out@ == start + dv + Seq::new(k as nat, |j: int| ' '),
            decreases pad - k,
        {
            out.push(' ');
            assert(out@ =~= start + dv + Seq::new((k + 1) as nat, |j: int| ' '));
            k = k + 1;
        }
        assert(out@ =~= start + body);
    }
    out.push('\n');
    assert(out@ =~= start + body.push('\n'));
}

/// The editor pane as text, one row per line for `height - 2` rows from the
/// scroll position; lines past the end of the text are shown as `~`.
pub fn render_editor(state: &EditorState, width: usize, height: usize) -> (s: String)
    requires
        can_render(*state, width as int, height as int),
    ensures
        s@ == render_rows(*state, width as int, (if height >= 2 { height - 2 } else { 0 }) as int),
{
    let visible_lines = if height >= 2 { height - 2 } else { 0 };
    let scroll = state.scroll_offset;
    let mut out: Vec<char> = Vec::new();
    let mut i: usize = 0;
    while i < visible_lines
        invariant
            i <= visible_lines,
            visible_lines == (if height >= 2 { height - 2 } else { 0 }),
            scroll == state.scroll_offset,
            can_render(*state, width as int, height as int),
            out@ == render_rows(*state, width as int, i as int),
        decreases visible_lines - i,
    {
        let line_idx = scroll + i;
        if line_idx >= state.content.len() {
            out.push('~');
            out.push('\n');
        } else {
            proof {
                let ii = i as int;
                let vis = if height >= 2 { height - 2 } else { 0 };
                assert(0 <= ii < vis);
                assert(state.scroll_offset + ii < state.content@.len());
                let l = state.lines()[state.scroll_offset + ii];
                assert(width >= 2);
            }
            push_line(&mut out, &state.content[line_idx], line_idx == state.cursor_line, state.cursor_col, width);
        }
        assert(out@ =~= render_rows(*state, width as int, i + 1));
        i = i + 1;
    }
    string_from_chars(&out)
}

/// With at least one visible row, the cursor line is visible after
/// `update_scroll`.
pub proof fn law_scroll_shows_cursor(cursor_line: int, scroll: int, visible: int)
    requires
        0 <= cursor_line,
        0 <= scroll,
        visible >= 1,
    ensures
        ({
            let s = if cursor_line < scroll {
                cursor_line
            } else if cursor_line >= scroll + visible {
                cursor_line - visible + 1
            } else {
                scroll
            };
            s <= cursor_line < s + visible
        }),
{
}

} // verus!
