//! Character and byte level helpers shared by the editor, the filters and the
//! parsers: UTF-8 widths, char-boundary positions, substring search and the
//! conversions between `String` and its characters.
use vstd::prelude::*;
use vstd::std_specs::iter::IteratorSpec;

verus! {

broadcast use vstd::string::group_string_axioms;

/// Number of bytes the UTF-8 encoding of `c` takes.
pub open spec fn char_width(c: char) -> nat {
    let v = c as u32;
    if v < 0x80 {
        1
    } else if v < 0x800 {
        2
    } else if v < 0x10000 {
        3
    } else {
        4
    }
}

/// Length in bytes of the UTF-8 encoding of `s` (what `str::len` returns).
pub open spec fn utf8_len(s: Seq<char>) -> nat
    decreases s.len(),
{
    if s.len() == 0 {
        0
    } else {
        utf8_len(s.drop_last()) + char_width(s.last())
    }
}

/// `b` is a byte offset that falls between two characters of `s` (or at either end).
pub open spec fn is_boundary(s: Seq<char>, b: int) -> bool {
    exists|k: int| 0 <= k <= s.len() && #[trigger] utf8_len(s.take(k)) == b
}

/// The number of characters that lie before the byte offset `b` of `s`.
pub open spec fn char_offset(s: Seq<char>, b: int) -> int {
    choose|k: int| 0 <= k <= s.len() && #[trigger] utf8_len(s.take(k)) == b
}

/// `s` with `t` inserted at the byte offset `b`.
pub open spec fn insert_at_byte(s: Seq<char>, b: int, t: Seq<char>) -> Seq<char> {
    s.take(char_offset(s, b)) + t + s.skip(char_offset(s, b))
}

/// `s` without the character that starts at the byte offset `b`.
pub open spec fn remove_at_byte(s: Seq<char>, b: int) -> Seq<char> {
    s.take(char_offset(s, b)) + s.skip(char_offset(s, b) + 1)
}

/// The part of `s` before the byte offset `b` (`&s[..b]`).
pub open spec fn prefix_at_byte(s: Seq<char>, b: int) -> Seq<char> {
    s.take(char_offset(s, b))
}

/// The part of `s` from the byte offset `b` on (`&s[b..]`).
pub open spec fn suffix_at_byte(s: Seq<char>, b: int) -> Seq<char> {
    s.skip(char_offset(s, b))
}

/// `needle` occurs in `hay` as a contiguous run of characters.
pub open spec fn contains_seq(hay: Seq<char>, needle: Seq<char>) -> bool {
    exists|i: int| 0 <= i <= hay.len() - needle.len() && #[trigger] hay.subrange(i, i + needle.len()) == needle
}

pub proof fn lemma_utf8_len_take_succ(s: Seq<char>, k: int)
    requires
        0 <= k < s.len(),
    ensures
        utf8_len(s.take(k + 1)) == utf8_len(s.take(k)) + char_width(s[k]),
{
    assert(s.take(k + 1).drop_last() =~= s.take(k));
}

pub proof fn lemma_utf8_len_concat(a: Seq<char>, b: Seq<char>)
    ensures
        utf8_len(a + b) == utf8_len(a) + utf8_len(b),
    decreases b.len(),
{
    if b.len() == 0 {
        assert(a + b =~= a);
    } else {
        lemma_utf8_len_concat(a, b.drop_last());
        assert((a + b).drop_last() =~= a + b.drop_last());
    }
}

/// No character takes more than four bytes.
pub proof fn lemma_utf8_len_bound(s: Seq<char>)
    ensures
        utf8_len(s) <= 4 * s.len(),
    decreases s.len(),
{
    if s.len() > 0 {
        lemma_utf8_len_bound(s.drop_last());
    }
}

/// Byte offsets of prefixes grow strictly with the number of characters.
pub proof fn lemma_utf8_len_take_strict(s: Seq<char>, j: int, k: int)
    requires
        0 <= j < k <= s.len(),
    ensures
        utf8_len(s.take(j)) < utf8_len(s.take(k)),
    decreases k - j,
{
    lemma_utf8_len_take_succ(s, k - 1);
    if j < k - 1 {
        lemma_utf8_len_take_strict(s, j, k - 1);
    }
}

pub proof fn lemma_utf8_len_take_le(s: Seq<char>, k: int)
    requires
        0 <= k <= s.len(),
    ensures
        utf8_len(s.take(k)) <= utf8_len(s),
{
    if k < s.len() {
        lemma_utf8_len_take_strict(s, k, s.len() as int);
    }
    assert(s.take(s.len() as int) =~= s);
}

/// A boundary determines its character offset.
pub proof fn lemma_char_offset(s: Seq<char>, k: int)
    requires
        0 <= k <= s.len(),
    ensures
        is_boundary(s, utf8_len(s.take(k)) as int),
        char_offset(s, utf8_len(s.take(k)) as int) == k,
{
    let b = utf8_len(s.take(k)) as int;
    assert(utf8_len(s.take(k)) == b);
    let c = char_offset(s, b);
    if c < k {
        lemma_utf8_len_take_strict(s, c, k);
    } else if c > k {
        lemma_utf8_len_take_strict(s, k, c);
    }
}

/// Width in bytes of the UTF-8 encoding of `c` (what `char::len_utf8` returns).
pub fn char_len_utf8(c: char) -> (n: usize)
    ensures
        n == char_width(c),
{
    let v = c as u32;
    if v < 0x80 {
        1
    } else if v < 0x800 {
        2
    } else if v < 0x10000 {
        3
    } else {
        4
    }
}

/// `utf8_len` read from the front: the first character's width and the rest.
proof fn lemma_utf8_len_first(s: Seq<char>)
    requires
        s.len() > 0,
    ensures
        utf8_len(s) == char_width(s[0]) + utf8_len(s.drop_first()),
    decreases s.len(),
{
    if s.len() > 1 {
        let d = s.drop_last();
        lemma_utf8_len_first(d);
        assert(d.drop_first() =~= s.drop_first().drop_last());
        assert(d[0] == s[0]);
        assert(s.drop_first().last() == s.last());
        assert(utf8_len(s.drop_first()) == utf8_len(s.drop_first().drop_last()) + char_width(s.last()));
        assert(utf8_len(s) == utf8_len(d) + char_width(s.last()));
    } else {
        assert(s.drop_last().len() == 0);
        assert(utf8_len(s.drop_last()) == 0);
        assert(s.drop_first().len() == 0);
        assert(utf8_len(s.drop_first()) == 0);
        assert(s.last() == s[0]);
    }
}

/// `utf8_len` is the length of the UTF-8 encoding.
pub proof fn lemma_utf8_len_encoded(s: Seq<char>)
    ensures
        utf8_len(s) == vstd::utf8::encode_utf8(s).len(),
    decreases s.len(),
{
    if s.len() > 0 {
        lemma_utf8_len_first(s);
        lemma_utf8_len_encoded(s.drop_first());
        let v = s[0] as u32;
        vstd::utf8::char_is_scalar(s[0]);
        assert(vstd::utf8::encode_scalar(v).len() == char_width(s[0]));
    }
}

/// Byte length of `s`: `str::len`, the number of bytes of the UTF-8 encoding
/// of its characters (a `usize`, so this also bounds that count).
pub(crate) fn byte_len(s: &str) -> (n: usize)
    ensures
        n == utf8_len(s@),
{
    let bytes = s.as_bytes();
    proof {
        broadcast use vstd::slice::group_slice_axioms;
        lemma_utf8_len_encoded(s@);
    }
    bytes.len()
}

/// The characters of `s`, in order.
pub fn chars_of(s: &str) -> (v: Vec<char>)
    ensures
        v@ == s@,
{
    let mut v: Vec<char> = Vec::new();
    let mut it = s.chars();
    loop
        invariant
            it.obeys_prophetic_iter_laws(),
            v@ + it.remaining() == s@,
            it.decrease() is Some,
        ensures
            v@ == s@,
        decreases it.decrease()->0,
    {
        let ghost before = it.remaining();
        match it.next() {
            Some(c) => {
                v.push(c);
                assert(v@ + it.remaining() =~= s@) by {
                    assert(before =~= seq![c] + it.remaining());
                }
            },
            None => {
                assert(v@ =~= s@);
                break ;
            },
        }
    }
    v
}

/// Builds a `String` from characters: `String`'s `FromIterator<char>`, which
/// concatenates the characters in order.
#[verifier::external_body]
pub(crate) fn string_from_chars(chars: &Vec<char>) -> (s: String)
    ensures
        s@ == chars@,
{
    chars.iter().collect()
}

/// Strict lexicographic order on characters (by code point), the order in
/// which `String::cmp` puts UTF-8 strings.
pub open spec fn seq_lt(a: Seq<char>, b: Seq<char>) -> bool
    decreases a.len(),
{
    if a.len() == 0 {
        b.len() > 0
    } else if b.len() == 0 {
        false
    } else if a[0] != b[0] {
        a[0] < b[0]
    } else {
        seq_lt(a.drop_first(), b.drop_first())
    }
}

pub proof fn lemma_seq_lt_irreflexive(a: Seq<char>)
    ensures
        !seq_lt(a, a),
    decreases a.len(),
{
    if a.len() > 0 {
        lemma_seq_lt_irreflexive(a.drop_first());
    }
}

pub proof fn lemma_seq_lt_transitive(a: Seq<char>, b: Seq<char>, c: Seq<char>)
    requires
        seq_lt(a, b),
        seq_lt(b, c),
    ensures
        seq_lt(a, c),
    decreases a.len(),
{
    if a.len() > 0 && b.len() > 0 && c.len() > 0 {
        if a[0] == b[0] && b[0] == c[0] {
            lemma_seq_lt_transitive(a.drop_first(), b.drop_first(), c.drop_first());
        }
    }
}

pub proof fn lemma_seq_lt_total(a: Seq<char>, b: Seq<char>)
    ensures
        seq_lt(a, b) || seq_lt(b, a) || a == b,
    decreases a.len(),
{
    if a.len() > 0 && b.len() > 0 {
        if a[0] == b[0] {
            lemma_seq_lt_total(a.drop_first(), b.drop_first());
            if a.drop_first() == b.drop_first() {
                assert(a =~= seq![a[0]] + a.drop_first());
                assert(b =~= seq![b[0]] + b.drop_first());
            }
        }
    } else if a.len() == 0 && b.len() == 0 {
        assert(a =~= b);
    }
}

/// Lexicographic comparison of two character sequences.
pub fn chars_lt(a: &Vec<char>, b: &Vec<char>) -> (r: bool)
    ensures
        r == seq_lt(a@, b@),
{
    let mut i: usize = 0;
    assert(a@.skip(0) =~= a@ && b@.skip(0) =~= b@);
    while i < a.len() && i < b.len() && a[i] == b[i]
        invariant
            i <= a.len(),
            i <= b.len(),
            seq_lt(a@, b@) == seq_lt(a@.skip(i as int), b@.skip(i as int)),
        decreases a.len() - i,
    {
        assert(a@.skip(i as int).drop_first() =~= a@.skip(i + 1));
        assert(b@.skip(i as int).drop_first() =~= b@.skip(i + 1));
        i = i + 1;
    }
    if i == a.len() {
        i < b.len()
    } else if i == b.len() {
        false
    } else {
        a[i] < b[i]
    }
}

/// The index of the character of `s` that starts at byte `b`, or `None` when
/// `b` does not fall between two characters.
pub fn find_char_offset(s: &Vec<char>, b: usize) -> (r: Option<usize>)
    ensures
        r is Some <==> is_boundary(s@, b as int),
        r matches Some(k) ==> k == char_offset(s@, b as int) && k <= s@.len(),
{
    let mut i: usize = 0;
    let mut acc: usize = 0;
    while i < s.len()
        invariant
            i <= s.len(),
            acc as int == utf8_len(s@.take(i as int)),
            acc <= b,
        decreases s.len() - i,
    {
        if acc == b {
            proof {
                lemma_char_offset(s@, i as int);
            }
            return Some(i);
        }
        let w = char_len_utf8(s[i]);
        proof {
            lemma_utf8_len_take_succ(s@, i as int);
        }
        if b - acc < w {
            proof {
                assert forall|k: int| 0 <= k <= s@.len() implies #[trigger] utf8_len(s@.take(k)) != b by {
                    if k <= i {
                        if k < i {
                            lemma_utf8_len_take_strict(s@, k, i as int);
                        }
                    } else {
                        if k > i + 1 {
                            lemma_utf8_len_take_strict(s@, i + 1, k);
                        }
                    }
                }
            }
            return None;
        }
        acc = acc + w;
        i = i + 1;
    }
    if acc == b {
        proof {
            lemma_char_offset(s@, i as int);
        }
        Some(i)
    } else {
        proof {
            assert forall|k: int| 0 <= k <= s@.len() implies #[trigger] utf8_len(s@.take(k)) != b by {
                if k < i {
                    lemma_utf8_len_take_strict(s@, k, i as int);
                }
            }
        }
        None
    }
}

/// The two character sequences are equal.
pub fn chars_equal(a: &Vec<char>, b: &Vec<char>) -> (r: bool)
    ensures
        r == (a@ == b@),
{
    if a.len() != b.len() {
        return false;
    }
    let mut i: usize = 0;
    while i < a.len()
        invariant
            a@.len() == b@.len(),
            i <= a@.len(),
            forall|j: int| 0 <= j < i ==> a@[j] == b@[j],
        decreases a.len() - i,
    {
        if a[i] != b[i] {
            return false;
        }
        i = i + 1;
    }
    assert(a@ =~= b@);
    true
}

/// `needle` occurs in `hay`.
pub fn chars_contain(hay: &Vec<char>, needle: &Vec<char>) -> (r: bool)
    ensures
        r == contains_seq(hay@, needle@),
{
    if needle.len() > hay.len() {
        return false;
    }
    let last = hay.len() - needle.len();
    let mut i: usize = 0;
    while i <= last
        invariant
            last == hay.len() - needle.len(),
            i <= last + 1,
            forall|j: int| 0 <= j < i ==> #[trigger] hay@.subrange(j, j + needle@.len()) != needle@,
        decreases last + 1 - i,
    {
        let mut k: usize = 0;
        while k < needle.len() && hay[i + k] == needle[k]
            invariant
                i <= last,
                last == hay.len() - needle.len(),
                k <= needle.len(),
                forall|m: int| 0 <= m < k ==> hay@[i + m] == needle@[m],
            decreases needle.len() - k,
        {
            k = k + 1;
        }
        if k == needle.len() {
            assert(hay@.subrange(i as int, i + needle@.len()) =~= needle@);
            return true;
        }
        assert(hay@.subrange(i as int, i + needle@.len())[k as int] != needle@[k as int]);
        i = i + 1;
    }
    false
}

/// Appends the characters of `src` to `dst`.
pub fn push_all(dst: &mut Vec<char>, src: &Vec<char>)
    ensures
        final(dst)@ == old(dst)@ + src@,
{
    let mut i: usize = 0;
    while i < src.len()
        invariant
            i <= src.len(),
            dst@ == old(dst)@ + src@.take(i as int),
        decreases src.len() - i,
    {
        dst.push(src[i]);
        assert(old(dst)@ + src@.take(i + 1) =~= dst@);
        i = i + 1;
    }
    assert(src@.take(src@.len() as int) =~= src@);
}

/// `line` with the characters `t` inserted at byte `b` (as `String::insert`
/// and `String::insert_str` do).
pub fn insert_chars_at(line: &String, b: usize, t: &Vec<char>) -> (r: String)
    requires
        is_boundary(line@, b as int),
    ensures
        r@ == insert_at_byte(line@, b as int, t@),
{
    let mut head = chars_of(line.as_str());
    let k = find_char_offset(&head, b).unwrap();
    let tail = head.split_off(k);
    push_all(&mut head, t);
    push_all(&mut head, &tail);
    assert(head@ =~= insert_at_byte(line@, b as int, t@));
    string_from_chars(&head)
}

/// `line` without the character that starts at byte `b` (as `String::remove`).
pub fn remove_char_at(line: &String, b: usize) -> (r: String)
    requires
        is_boundary(line@, b as int),
        char_offset(line@, b as int) < line@.len(),
    ensures
        r@ == remove_at_byte(line@, b as int),
{
    let mut head = chars_of(line.as_str());
    let k = find_char_offset(&head, b).unwrap();
    let mut tail = head.split_off(k);
    tail.remove(0);
    push_all(&mut head, &tail);
    assert(head@ =~= remove_at_byte(line@, b as int));
    string_from_chars(&head)
}

/// `line` cut at byte `b`: `(&line[..b], &line[b..])`.
pub fn split_at_byte(line: &String, b: usize) -> (r: (String, String))
    requires
        is_boundary(line@, b as int),
    ensures
        r.0@ == prefix_at_byte(line@, b as int),
        r.1@ == suffix_at_byte(line@, b as int),
{
    let mut head = chars_of(line.as_str());
    let k = find_char_offset(&head, b).unwrap();
    let tail = head.split_off(k);
    (string_from_chars(&head), string_from_chars(&tail))
}

/// `a` followed by `b` (as `String::push_str`).
pub fn concat_strings(a: &String, b: &String) -> (r: String)
    ensures
        r@ == a@ + b@,
{
    let mut v = chars_of(a.as_str());
    let w = chars_of(b.as_str());
    push_all(&mut v, &w);
    string_from_chars(&v)
}

/// The lines joined with `'\n'` between them (`[String]::join("\n")`).
pub open spec fn join_lines(lines: Seq<Seq<char>>) -> Seq<char>
    decreases lines.len(),
{
    if lines.len() == 0 {
        Seq::empty()
    } else if lines.len() == 1 {
        lines[0]
    } else {
        join_lines(lines.drop_last()) + seq!['\n'] + lines.last()
    }
}

/// Joins the lines with `'\n'`.
pub fn join_with_newlines(lines: &Vec<String>) -> (r: String)
    ensures
        r@ == join_lines(lines.deep_view()),
{
    let mut out: Vec<char> = Vec::new();
    let mut i: usize = 0;
    let nl: Vec<char> = vec!['\n'];
    while i < lines.len()
        invariant
            i <= lines.len(),
            nl@ == seq!['\n'],
            out@ == join_lines(lines.deep_view().take(i as int)),
        decreases lines.len() - i,
    {
        let ghost before = lines.deep_view().take(i as int);
        let piece = chars_of(lines[i].as_str());
        if i > 0 {
            push_all(&mut out, &nl);
        }
        push_all(&mut out, &piece);
        proof {
            let next = lines.deep_view().take(i + 1);
            assert(next.drop_last() =~= before);
            assert(next.last() == lines[i as int]@);
            if i == 0 {
                assert(next.len() == 1);
            }
        }
        i = i + 1;
    }
    assert(lines.deep_view().take(lines.len() as int) =~= lines.deep_view());
    string_from_chars(&out)
}

/// A copy of the lines.
pub fn clone_lines(lines: &Vec<String>) -> (r: Vec<String>)
    ensures
        r.deep_view() == lines.deep_view(),
{
    let mut out: Vec<String> = Vec::new();
    let mut i: usize = 0;
    while i < lines.len()
        invariant
            i <= lines.len(),
            out.deep_view() == lines.deep_view().take(i as int),
        decreases lines.len() - i,
    {
        let ghost prev = out.deep_view();
        let copy = lines[i].clone();
        assert(copy@ == lines[i as int]@);
        out.push(copy);
        assert(out.deep_view() =~= prev.push(copy@));
        assert(out.deep_view() =~= lines.deep_view().take(i + 1));
        i = i + 1;
    }
    assert(lines.deep_view().take(lines.len() as int) =~= lines.deep_view());
    out
}

/// The pieces of `s` between `'\n'` characters (one more than there are
/// newlines).
pub open spec fn newline_pieces(s: Seq<char>) -> Seq<Seq<char>>
    decreases s.len(),
{
    if s.len() == 0 {
        seq![Seq::empty()]
    } else {
        let p = newline_pieces(s.drop_last());
        if s.last() == '\n' {
            p.push(Seq::empty())
        } else {
            p.update(p.len() - 1, p.last().push(s.last()))
        }
    }
}

pub proof fn lemma_newline_pieces_nonempty(s: Seq<char>)
    ensures
        newline_pieces(s).len() >= 1,
    decreases s.len(),
{
    if s.len() > 0 {
        lemma_newline_pieces_nonempty(s.drop_last());
    }
}

/// Joining the pieces between `'\n'`s with `'\n'` gives back the text.
pub proof fn lemma_join_newline_pieces(s: Seq<char>)
    ensures
        join_lines(newline_pieces(s)) == s,
    decreases s.len(),
{
    if s.len() > 0 {
        let s0 = s.drop_last();
        let c = s.last();
        lemma_join_newline_pieces(s0);
        lemma_newline_pieces_nonempty(s0);
        let p0 = newline_pieces(s0);
        let p = newline_pieces(s);
        if c == '\n' {
            assert(p.drop_last() =~= p0);
        } else if p0.len() == 1 {
            assert(p[0] =~= s0.push(c));
        } else {
            assert(p.drop_last() =~= p0.drop_last());
            assert(join_lines(p) =~= join_lines(p0).push(c));
        }
        assert(s0.push(c) =~= s);
    }
}

/// When the text has no `'\r'`, neither has any of its pieces.
pub proof fn lemma_newline_pieces_no_cr(s: Seq<char>)
    requires
        !s.contains('\r'),
    ensures
        forall|i: int| 0 <= i < newline_pieces(s).len() ==> !(#[trigger] newline_pieces(s)[i]).contains('\r'),
    decreases s.len(),
{
    if s.len() > 0 {
        let s0 = s.drop_last();
        assert forall|j: int| 0 <= j < s0.len() implies s0[j] != '\r' by {
            assert(s[j] == s0[j]);
        }
        lemma_newline_pieces_no_cr(s0);
        lemma_newline_pieces_nonempty(s0);
        let p0 = newline_pieces(s0);
        let p = newline_pieces(s);
        assert(s[s.len() - 1] == s.last());
        assert forall|i: int| 0 <= i < p.len() implies !(#[trigger] p[i]).contains('\r') by {
            if s.last() != '\n' && i == p0.len() - 1 {
                let q = p0.last().push(s.last());
                assert forall|j: int| 0 <= j < q.len() implies q[j] != '\r' by {
                    if j < q.len() - 1 {
                        assert(p0[i][j] == q[j]);
                    }
                }
            } else if i < p0.len() {
                assert(p[i] == p0[i]);
            }
        }
    }
}

/// A text with no `'\r'` and no final `'\n'` is its lines joined with `'\n'`.
pub proof fn lemma_join_text_lines(s: Seq<char>)
    requires
        !s.contains('\r'),
        s.len() == 0 || s.last() != '\n',
    ensures
        join_lines(text_lines(s)) == s,
{
    let p = newline_pieces(s);
    lemma_join_newline_pieces(s);
    lemma_newline_pieces_nonempty(s);
    if s.len() == 0 {
        assert(text_lines(s) =~= Seq::<Seq<char>>::empty());
    } else {
        lemma_newline_pieces_no_cr(s);
        let s0 = s.drop_last();
        lemma_newline_pieces_nonempty(s0);
        assert(p.last().len() > 0);
        assert forall|i: int| 0 <= i < p.len() implies strip_cr(p[i]) == p[i] by {
            if p[i].len() > 0 {
                assert(p[i].contains(p[i].last()));
            }
        }
        assert(text_lines(s) =~= p);
    }
}

/// A line without the `'\r'` of a `"\r\n"` ending.
pub open spec fn strip_cr(line: Seq<char>) -> Seq<char> {
    if line.len() > 0 && line.last() == '\r' {
        line.drop_last()
    } else {
        line
    }
}

/// What `str::lines` yields: the text split at `'\n'`, a `'\r'` before a
/// `'\n'` dropped, and no empty line after a final `'\n'`.
pub open spec fn text_lines(s: Seq<char>) -> Seq<Seq<char>> {
    let p = newline_pieces(s);
    let kept = if p.last().len() == 0 { p.drop_last() } else { p };
    Seq::new(
        kept.len(),
        |i: int|
            if i < p.len() - 1 {
                strip_cr(kept[i])
            } else {
                kept[i]
            },
    )
}

/// The characters of each vector.
pub open spec fn char_vecs_view(v: Seq<Vec<char>>) -> Seq<Seq<char>> {
    v.map_values(|x: Vec<char>| x@)
}

/// `s.lines()`, each line as a `String`.
pub fn split_lines(s: &str) -> (r: Vec<String>)
    ensures
        r.deep_view() == text_lines(s@),
{
    let chars = chars_of(s);
    let mut done: Vec<Vec<char>> = Vec::new();
    let mut cur: Vec<char> = Vec::new();
    let mut i: usize = 0;
    while i < chars.len()
        invariant
            i <= chars.len(),
            chars@ == s@,
            newline_pieces(chars@.take(i as int)) == char_vecs_view(done@).push(cur@),
        decreases chars.len() - i,
    {
        let c = chars[i];
        let ghost pre = chars@.take(i as int);
        assert(chars@.take(i + 1).drop_last() =~= pre);
        let ghost d = done@;
        let ghost cv = cur@;
        if c == '\n' {
            let piece = cur;
            done.push(piece);
            cur = Vec::new();
            assert(char_vecs_view(done@) =~= char_vecs_view(d).push(cv));
        } else {
            cur.push(c);
        }
        proof {
            lemma_newline_pieces_nonempty(pre);
        }
        assert(newline_pieces(chars@.take(i + 1)) =~= char_vecs_view(done@).push(cur@));
        i = i + 1;
    }
    assert(chars@.take(chars@.len() as int) =~= s@);
    let ghost pieces = char_vecs_view(done@).push(cur@);
    let mut out: Vec<String> = Vec::new();
    let mut j: usize = 0;
    while j < done.len()
        invariant
            j <= done.len(),
            pieces == newline_pieces(s@),
            pieces == char_vecs_view(done@).push(cur@),
            out.deep_view() == text_lines(s@).take(j as int),
        decreases done.len() - j,
    {
        let mut l: Vec<char> = Vec::new();
        push_all(&mut l, &done[j]);
        if l.len() > 0 && l[l.len() - 1] == '\r' {
            l.pop();
        }
        assert(l@ == strip_cr(pieces[j as int]));
        let ghost before = out.deep_view();
        out.push(string_from_chars(&l));
        assert(out.deep_view() =~= before.push(l@));
        assert(out.deep_view() =~= text_lines(s@).take(j + 1));
        j = j + 1;
    }
    if cur.len() > 0 {
        let ghost before = out.deep_view();
        out.push(string_from_chars(&cur));
        assert(out.deep_view() =~= before.push(cur@));
    }
    assert(out.deep_view() =~= text_lines(s@));
    out
}

/// The decimal digit `d` (0 to 9).
pub open spec fn digit_char(d: int) -> char {
    if d == 0 {
        '0'
    } else if d == 1 {
        '1'
    } else if d == 2 {
        '2'
    } else if d == 3 {
        '3'
    } else if d == 4 {
        '4'
    } else if d == 5 {
        '5'
    } else if d == 6 {
        '6'
    } else if d == 7 {
        '7'
    } else if d == 8 {
        '8'
    } else {
        '9'
    }
}

/// The decimal representation of `n`, without leading zeros.
pub open spec fn decimal(n: nat) -> Seq<char>
    decreases n,
{
    if n < 10 {
        seq![digit_char(n as int)]
    } else {
        decimal(n / 10).push(digit_char((n % 10) as int))
    }
}

/// The digit character for `d < 10`.
pub fn digit(d: u64) -> (c: char)
    requires
        d < 10,
    ensures
        c == digit_char(d as int),
{
    if d == 0 {
        '0'
    } else if d == 1 {
        '1'
    } else if d == 2 {
        '2'
    } else if d == 3 {
        '3'
    } else if d == 4 {
        '4'
    } else if d == 5 {
        '5'
    } else if d == 6 {
        '6'
    } else if d == 7 {
        '7'
    } else if d == 8 {
        '8'
    } else {
        '9'
    }
}

/// Appends the decimal representation of `n` to `out`.
pub fn push_decimal(out: &mut Vec<char>, n: u64)
    ensures
        final(out)@ == old(out)@ + decimal(n as nat),
    decreases n,
{
    if n < 10 {
        out.push(digit(n));
        assert(old(out)@ + decimal(n as nat) =~= out@);
    } else {
        push_decimal(out, n / 10);
        out.push(digit(n % 10));
        assert(old(out)@ + decimal(n as nat) =~= out@);
    }
}

/// `char::is_whitespace`: the Unicode `White_Space` characters.
pub open spec fn is_white(c: char) -> bool {
    let v = c as u32;
    ||| 0x09 <= v <= 0x0D
    ||| v == 0x20
    ||| v == 0x85
    ||| v == 0xA0
    ||| v == 0x1680
    ||| 0x2000 <= v <= 0x200A
    ||| v == 0x2028
    ||| v == 0x2029
    ||| v == 0x202F
    ||| v == 0x205F
    ||| v == 0x3000
}

/// The number of whitespace characters at the start of `s`.
pub open spec fn leading_white(s: Seq<char>) -> nat
    decreases s.len(),
{
    if s.len() > 0 && is_white(s[0]) {
        1 + leading_white(s.drop_first())
    } else {
        0
    }
}

/// The number of whitespace characters at the end of `s`.
pub open spec fn trailing_white(s: Seq<char>) -> nat
    decreases s.len(),
{
    if s.len() > 0 && is_white(s.last()) {
        1 + trailing_white(s.drop_last())
    } else {
        0
    }
}

/// `s` without leading and trailing whitespace (`str::trim`).
pub open spec fn trimmed(s: Seq<char>) -> Seq<char> {
    let a = leading_white(s) as int;
    let rest = s.skip(a);
    rest.take(rest.len() - trailing_white(rest))
}

pub fn is_whitespace(c: char) -> (r: bool)
    ensures
        r == is_white(c),
{
    let v = c as u32;
    (0x09 <= v && v <= 0x0D) || v == 0x20 || v == 0x85 || v == 0xA0 || v == 0x1680 || (0x2000 <= v
        && v <= 0x200A) || v == 0x2028 || v == 0x2029 || v == 0x202F || v == 0x205F || v == 0x3000
}

/// The characters of `s` with surrounding whitespace removed.
pub fn trim_chars(s: &Vec<char>) -> (r: Vec<char>)
    ensures
        r@ == trimmed(s@),
{
    let mut a: usize = 0;
    assert(s@.skip(0) =~= s@);
    while a < s.len() && is_whitespace(s[a])
        invariant
            a <= s@.len(),
            leading_white(s@) == a + leading_white(s@.skip(a as int)),
        decreases s.len() - a,
    {
        assert(s@.skip(a as int).drop_first() =~= s@.skip(a + 1));
        a = a + 1;
    }
    assert(leading_white(s@.skip(a as int)) == 0);
    let ghost rest = s@.skip(a as int);
    let mut b: usize = s.len();
    assert(rest.take(b - a) =~= rest);
    while b > a && is_whitespace(s[b - 1])
        invariant
            a <= b <= s@.len(),
            rest == s@.skip(a as int),
            trailing_white(rest) == (s@.len() - b) + trailing_white(rest.take(b - a)),
        decreases b,
    {
        assert(rest.take(b - a).drop_last() =~= rest.take(b - a - 1));
        assert(rest.take(b - a).last() == s@[b - 1]);
        b = b - 1;
    }
    assert(trailing_white(rest.take(b - a)) == 0);
    proof {
        assert(rest.take(rest.len() as int) =~= rest);
    }
    let mut out: Vec<char> = Vec::new();
    let mut i = a;
    while i < b
        invariant
            a <= i <= b <= s@.len(),
            out@ == s@.subrange(a as int, i as int),
        decreases b - i,
    {
        out.push(s[i]);
        assert(out@ =~= s@.subrange(a as int, i + 1));
        i = i + 1;
    }
    assert(out@ =~= rest.take(rest.len() - trailing_white(rest)));
    out
}

/// What `String::from_utf8_lossy` gives for `bytes`: the decoded text, each
/// invalid sequence replaced by U+FFFD.
pub uninterp spec fn utf8_lossy(bytes: Seq<u8>) -> Seq<char>;

/// `String::from_utf8_lossy`, as an owned `String`; valid UTF-8 is decoded as
/// it is.
#[verifier::external_body]
pub(crate) fn from_utf8_lossy(bytes: &Vec<u8>) -> (s: String)
    ensures
        s@ == utf8_lossy(bytes@),
        vstd::utf8::valid_utf8(bytes@) ==> s@ == vstd::utf8::decode_utf8(bytes@),
{
    String::from_utf8_lossy(bytes).into_owned()
}

/// What `str::to_lowercase` returns for the given characters (full Unicode
/// lowercase mapping, context sensitive for final sigma).
pub uninterp spec fn lowercase(s: Seq<char>) -> Seq<char>;

/// Every character of `s` is ASCII.
pub open spec fn all_ascii(s: Seq<char>) -> bool {
    forall|i: int| 0 <= i < s.len() ==> (#[trigger] s[i] as u32) < 0x80
}

/// `c` with an ASCII capital letter made small.
pub open spec fn ascii_lower_char(c: char) -> char {
    if 'A' <= c <= 'Z' {
        ((c as u32) + 32) as char
    } else {
        c
    }
}

/// The ASCII capital letters of `s` made small, the rest kept.
pub open spec fn ascii_lowercased(s: Seq<char>) -> Seq<char> {
    s.map_values(|c: char| ascii_lower_char(c))
}

/// `str::to_lowercase`. Its result is named (`lowercase`); for ASCII text
/// it is the text with the capital letters `A` to `Z` made small, each
/// character on its own, as the Unicode lowercase mapping of those letters
/// gives.
#[verifier::external_body]
pub(crate) fn to_lowercase(s: &str) -> (r: String)
    ensures
        r@ == lowercase(s@),
        all_ascii(s@) ==> r@ == ascii_lowercased(s@),
{
    s.to_lowercase()
}

} // verus!
