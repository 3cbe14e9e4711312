//! The directory listing: its entries, how they are sorted and filtered, the
//! cursor over them (row 0 is the `..` row when the directory has a parent)
//! and the set of marked paths.
use vstd::prelude::*;
use crate::paths::{components_of, has_parent, parent_of, path_parent, same_path};
use crate::text::{
    decimal, digit, digit_char, push_decimal, string_from_chars, chars_contain, chars_lt, chars_of, contains_seq, lemma_seq_lt_irreflexive, lemma_seq_lt_total,
    lemma_seq_lt_transitive, lowercase, seq_lt, to_lowercase, all_ascii, ascii_lowercased,
};

verus! {

/// The key the listing is sorted by.
#[derive(Debug, Clone, Copy, PartialEq, Eq, Structural)]
pub enum SortOrder {
    Name,
    Size,
    Modified,
}

impl FileEntry {
    /// The size for the file list: `"<1M"`, or MiB or GiB with one decimal
    /// (see `size_text`).
    pub fn size_formatted(&self) -> (s: String)
        ensures
            s@ == size_text(self.size as nat),
    {
        let mut out: Vec<char> = Vec::new();
        if self.size < 0x10_0000 {
            out.push('<');
            out.push('1');
            out.push('M');
            assert(out@ =~= size_text(self.size as nat));
            return string_from_chars(&out);
        }
        let v = f64_rounded(self.size);
        let big = self.size >= 0x4000_0000;
        let d: u128 = if big { 0x4000_0000 } else { 0x10_0000 };
        let t = round_even(v * 10, d);
        assert(t <= v * 10) by (nonlinear_arith)
            requires
                t == div_round_even((v * 10) as nat, d as nat),
                d >= 0x10_0000,
        ;
        push_decimal(&mut out, (t / 10) as u64);
        out.push('.');
        out.push(digit((t % 10) as u64));
        out.push(if big { 'G' } else { 'M' });
        assert(out@ =~= size_text(self.size as nat));
        string_from_chars(&out)
    }

    /// The modification time as local `%Y-%m-%d %H:%M`, or `"--"` without
    /// one; empty for a time outside chrono's range.
    pub fn modified_formatted(&self) -> (s: String)
        ensures
            self.modified is None ==> s@ == seq!['-', '-'],
            self.modified is Some ==> s@.len() == 0 || minute_stamp(s@),
    {
        match self.modified {
            Some((secs, nanos)) => match format_local_minutes(secs, nanos) {
                Some(text) => text,
                None => String::new(),
            },
            None => {
                let v = vec!['-', '-'];
                string_from_chars(&v)
            },
        }
    }
}

/// An ASCII decimal digit.
pub open spec fn is_digit(c: char) -> bool {
    '0' <= c <= '9'
}

/// The two digits at `i` and `i + 1` of `s` give a number from `lo` to `hi`.
pub open spec fn two_digits_in(s: Seq<char>, i: int, lo: int, hi: int) -> bool {
    &&& is_digit(s[i])
    &&& is_digit(s[i + 1])
    &&& lo <= (s[i] as int - '0' as int) * 10 + (s[i + 1] as int - '0' as int) <= hi
}

/// A year as `%Y` writes it: at least four digits, with a sign before years
/// outside 0 to 9999.
pub open spec fn year_text(y: Seq<char>) -> bool {
    let digits = if y.len() > 0 && (y[0] == '+' || y[0] == '-') {
        y.drop_first()
    } else {
        y
    };
    &&& digits.len() >= 4
    &&& forall|i: int| 0 <= i < digits.len() ==> is_digit(#[trigger] digits[i])
}

/// The shape of `%Y-%m-%d %H:%M`: a year, then the month (01 to 12), the day
/// (01 to 31), the hour (00 to 23) and the minute (00 to 59).
pub open spec fn minute_stamp(s: Seq<char>) -> bool {
    let n = s.len() as int;
    &&& n >= 16
    &&& year_text(s.take(n - 12))
    &&& s[n - 12] == '-' && two_digits_in(s, n - 11, 1, 12)
    &&& s[n - 9] == '-' && two_digits_in(s, n - 8, 1, 31)
    &&& s[n - 6] == ' ' && two_digits_in(s, n - 5, 0, 23)
    &&& s[n - 3] == ':' && two_digits_in(s, n - 2, 0, 59)
}

/// `chrono`'s `DateTime::from_timestamp(secs, nanos)` in the local time zone,
/// formatted with `"%Y-%m-%d %H:%M"`; `None` when chrono cannot represent the
/// time. Which time the text shows depends on the machine's time zone, so
/// only its shape is stated.
#[verifier::external_body]
fn format_local_minutes(secs: i64, nanos: u32) -> (r: Option<String>)
    ensures
        r matches Some(t) ==> minute_stamp(t@),
{
    match chrono::DateTime::from_timestamp(secs, nanos) {
        Some(utc) => Some(utc.with_timezone(&chrono::Local).format("%Y-%m-%d %H:%M").to_string()),
        None => None,
    }
}

impl SortOrder {
    /// The next order in the cycle Name, Size, Modified, Name.
    pub fn next(&self) -> (r: Self)
        ensures
            r == match *self {
                SortOrder::Name => SortOrder::Size,
                SortOrder::Size => SortOrder::Modified,
                SortOrder::Modified => SortOrder::Name,
            },
    {
        match self {
            SortOrder::Name => SortOrder::Size,
            SortOrder::Size => SortOrder::Modified,
            SortOrder::Modified => SortOrder::Name,
        }
    }
}

/// One entry of a directory listing. `modified` is the modification time as
/// whole seconds since the Unix epoch (rounded down) and the nanoseconds
/// after them, when the file system reports one.
#[derive(Debug, Clone)]
pub struct FileEntry {
    pub name: String,
    pub path: String,
    pub is_dir: bool,
    pub size: u64,
    pub modified: Option<(i64, u32)>,
}

/// The spacing of the `f64` values around `n`: 1 below 2^53, doubling with
/// each further bit.
pub open spec fn f64_unit(n: nat) -> nat
    decreases n,
{
    if n < 0x20_0000_0000_0000 {
        1
    } else {
        2 * f64_unit(n / 2)
    }
}

/// `n / d` rounded to the nearest integer, ties to even.
pub open spec fn div_round_even(n: nat, d: nat) -> nat {
    let q = n / d;
    let r = n % d;
    if 2 * r > d || (2 * r == d && q % 2 == 1) {
        q + 1
    } else {
        q
    }
}

/// The value of `n as f64`: `n` rounded to the nearest multiple of the
/// spacing, ties to an even multiple.
pub open spec fn f64_value(n: nat) -> nat {
    div_round_even(n, f64_unit(n)) * f64_unit(n)
}

/// `t` tenths written with one decimal, as `{:.1}` writes `t / 10`.
pub open spec fn tenths_text(t: nat) -> Seq<char> {
    decimal(t / 10).push('.').push(digit_char((t % 10) as int))
}

/// The size as `size_formatted` shows it: below 1 MiB `"<1M"`; below 1 GiB
/// the size in MiB with one decimal and `M`; else in GiB with `G`. The
/// decimal is the `f64` size divided by 2^20 (or 2^30), rounded half to even.
pub open spec fn size_text(size: nat) -> Seq<char> {
    let v = f64_value(size);
    if size < 0x10_0000 {
        seq!['<', '1', 'M']
    } else if size < 0x4000_0000 {
        tenths_text(div_round_even(v * 10, 0x10_0000)).push('M')
    } else {
        tenths_text(div_round_even(v * 10, 0x4000_0000)).push('G')
    }
}

fn round_even(n: u128, d: u128) -> (r: u128)
    requires
        d > 0,
        d <= 0x1_0000_0000_0000_0000,
        n < 0x1_0000_0000_0000_0000_0000_0000_0000_0000 - 1,
    ensures
        r == div_round_even(n as nat, d as nat),
{
    let q = n / d;
    let r = n % d;
    assert(q <= n) by (nonlinear_arith)
        requires
            q == n / d,
            d > 0,
    ;
    if 2 * r > d || (2 * r == d && q % 2 == 1) {
        q + 1
    } else {
        q
    }
}

/// `n as f64`, as an integer.
fn f64_rounded(n: u64) -> (r: u128)
    ensures
        r == f64_value(n as nat),
        r <= 0x2_0000_0000_0000_0000,
{
    let mut m: u64 = n;
    let mut unit: u64 = 1;
    while m >= 0x20_0000_0000_0000
        invariant
            unit > 0,
            m == n / unit,
            f64_unit(n as nat) == unit * f64_unit(m as nat),
            unit * m <= n,
            unit == 1 || m >= 0x10_0000_0000_0000,
        decreases m,
    {
        proof {
            vstd::arithmetic::div_mod::lemma_div_denominator(n as int, unit as int, 2);
            assert(unit * 2 * (m / 2) <= unit * m) by (nonlinear_arith)
                requires
                    unit > 0,
            ;
            assert(unit * 2 <= n) by (nonlinear_arith)
                requires
                    unit * m <= n,
                    m >= 2,
                    unit > 0,
            ;
            assert(f64_unit(n as nat) == (unit * 2) * f64_unit((m / 2) as nat)) by (nonlinear_arith)
                requires
                    f64_unit(n as nat) == unit * f64_unit(m as nat),
                    f64_unit(m as nat) == 2 * f64_unit((m / 2) as nat),
            ;
        }
        m = m / 2;
        unit = unit * 2;
    }
    assert(f64_unit(m as nat) == 1);
    assert(unit == f64_unit(n as nat));
    assert(unit <= 0x1000) by (nonlinear_arith)
        requires
            unit * m <= n,
            unit == 1 || m >= 0x10_0000_0000_0000,
            n <= 0xffff_ffff_ffff_ffff,
    ;
    let q = n / unit;
    let rest = n % unit;
    let up = 2 * (rest as u128) > unit as u128 || (2 * (rest as u128) == unit as u128 && q % 2 == 1);
    let q2: u128 = if up { q as u128 + 1 } else { q as u128 };
    assert(q2 == div_round_even(n as nat, unit as nat));
    assert(q2 * unit <= 0x2_0000_0000_0000_0000) by (nonlinear_arith)
        requires
            q == n / unit,
            q2 <= q + 1,
            unit > 0,
            unit <= 0x1000,
            n <= 0xffff_ffff_ffff_ffff,
    ;
    q2 * (unit as u128)
}

/// `a` is an earlier time than `b`; no time is earlier than any time.
pub open spec fn time_lt(a: Option<(i64, u32)>, b: Option<(i64, u32)>) -> bool {
    match (a, b) {
        (None, Some(_)) => true,
        (Some(x), Some(y)) => x.0 < y.0 || (x.0 == y.0 && x.1 < y.1),
        _ => false,
    }
}

/// The lowercase name, by which the Name order compares entries.
pub open spec fn name_key(e: FileEntry) -> Seq<char> {
    lowercase(e.name@)
}

/// `a` is listed strictly before `b` under `order`: directories first, then by
/// lowercase name (ascending), size (largest first) or modification time
/// (newest first, entries without a time last).
pub open spec fn entry_before(order: SortOrder, a: FileEntry, b: FileEntry) -> bool {
    if a.is_dir != b.is_dir {
        a.is_dir
    } else {
        match order {
            SortOrder::Name => seq_lt(name_key(a), name_key(b)),
            SortOrder::Size => b.size < a.size,
            SortOrder::Modified => time_lt(b.modified, a.modified),
        }
    }
}

/// `out` is `inp` put in order by a stable sort, `p` telling where each
/// element of `out` was in `inp`: a permutation, ordered, and entries that
/// compare equal keep their relative order.
pub open spec fn is_stable_sort(order: SortOrder, out: Seq<FileEntry>, inp: Seq<FileEntry>, p: Seq<int>) -> bool {
    &&& out.len() == inp.len()
    &&& p.len() == inp.len()
    &&& forall|k: int| 0 <= k < out.len() ==> 0 <= #[trigger] p[k] < inp.len() && out[k] == inp[p[k]]
    &&& forall|k: int, l: int| 0 <= k < l < out.len() ==> #[trigger] p[k] != #[trigger] p[l]
    &&& forall|k: int, l: int| 0 <= k < l < out.len() ==> !entry_before(order, #[trigger] out[l], #[trigger] out[k])
    &&& forall|k: int, l: int|
        0 <= k < l < out.len() && !entry_before(order, #[trigger] out[k], #[trigger] out[l]) ==> p[k] < p[l]
}

/// `out` is what a stable sort of `inp` by `order` gives.
pub open spec fn stably_sorted(order: SortOrder, out: Seq<FileEntry>, inp: Seq<FileEntry>) -> bool {
    exists|p: Seq<int>| is_stable_sort(order, out, inp, p)
}

proof fn lemma_time_total(a: Option<(i64, u32)>, b: Option<(i64, u32)>)
    ensures
        time_lt(a, b) || time_lt(b, a) || a == b,
{
}

pub proof fn lemma_before_irreflexive(order: SortOrder, a: FileEntry)
    ensures
        !entry_before(order, a, a),
{
    lemma_seq_lt_irreflexive(name_key(a));
}

pub proof fn lemma_before_transitive(order: SortOrder, a: FileEntry, b: FileEntry, c: FileEntry)
    requires
        entry_before(order, a, b),
        entry_before(order, b, c),
    ensures
        entry_before(order, a, c),
{
    if a.is_dir == b.is_dir && b.is_dir == c.is_dir {
        if order == SortOrder::Name {
            lemma_seq_lt_transitive(name_key(a), name_key(b), name_key(c));
        }
    }
}

/// Not-after is transitive too (the order is a strict weak order).
pub proof fn lemma_not_before_transitive(order: SortOrder, a: FileEntry, b: FileEntry, c: FileEntry)
    requires
        !entry_before(order, a, b),
        !entry_before(order, b, c),
    ensures
        !entry_before(order, a, c),
{
    if a.is_dir == b.is_dir && b.is_dir == c.is_dir {
        match order {
            SortOrder::Name => {
                lemma_seq_lt_total(name_key(a), name_key(b));
                lemma_seq_lt_total(name_key(b), name_key(c));
                if seq_lt(name_key(a), name_key(c)) {
                    if seq_lt(name_key(b), name_key(a)) {
                        lemma_seq_lt_transitive(name_key(b), name_key(a), name_key(c));
                    }
                }
            },
            SortOrder::Size => {},
            SortOrder::Modified => {
                lemma_time_total(a.modified, b.modified);
                lemma_time_total(b.modified, c.modified);
            },
        }
    }
}

/// Inserting the next input entry after every entry it does not go before
/// keeps the output a stable sort of the input read so far.
proof fn lemma_insert_sorted(
    order: SortOrder,
    out: Seq<FileEntry>,
    inp: Seq<FileEntry>,
    p: Seq<int>,
    i: int,
    pos: int,
)
    requires
        0 <= i < inp.len(),
        is_stable_sort(order, out, inp.take(i), p),
        0 <= pos <= out.len(),
        forall|q: int| 0 <= q < pos ==> !entry_before(order, inp[i], #[trigger] out[q]),
        pos < out.len() ==> entry_before(order, inp[i], out[pos]),
    ensures
        is_stable_sort(order, out.insert(pos, inp[i]), inp.take(i + 1), p.insert(pos, i)),
{
    let x = inp[i];
    let o2 = out.insert(pos, x);
    let p2 = p.insert(pos, i);
    let t = inp.take(i + 1);
    assert forall|k: int| 0 <= k < o2.len() implies 0 <= #[trigger] p2[k] < t.len() && o2[k] == t[p2[k]] by {
        if k < pos {
            assert(o2[k] == out[k]);
        } else if k > pos {
            assert(o2[k] == out[k - 1]);
        }
    }
    assert forall|k: int, l: int| 0 <= k < l < o2.len() implies #[trigger] p2[k] != #[trigger] p2[l] by {
        if k != pos && l != pos {
            let k0 = if k < pos { k } else { k - 1 };
            let l0 = if l < pos { l } else { l - 1 };
            assert(p2[k] == p[k0] && p2[l] == p[l0]);
        } else if k == pos {
            assert(p2[l] == p[l - 1]);
        } else {
            assert(p2[k] == p[k]);
        }
    }
    assert forall|k: int, l: int| 0 <= k < l < o2.len() implies !entry_before(
        order,
        #[trigger] o2[l],
        #[trigger] o2[k],
    ) by {
        if k != pos && l != pos {
            let k0 = if k < pos { k } else { k - 1 };
            let l0 = if l < pos { l } else { l - 1 };
            assert(o2[k] == out[k0] && o2[l] == out[l0]);
        } else if l == pos {
            assert(o2[k] == out[k]);
        } else {
            // k == pos < l: x goes before out[pos], which does not go after out[l - 1]
            let y = out[l - 1];
            assert(o2[l] == y);
            if entry_before(order, y, x) {
                if l - 1 == pos {
                    lemma_before_irreflexive(order, x);
                    lemma_before_transitive(order, x, y, x);
                } else {
                    assert(!entry_before(order, out[l - 1], out[pos]));
                    lemma_before_transitive(order, y, x, out[pos]);
                }
            }
        }
    }
    assert forall|k: int, l: int|
        0 <= k < l < o2.len() && !entry_before(order, #[trigger] o2[k], #[trigger] o2[l]) implies p2[k]
        < p2[l] by {
        if k != pos && l != pos {
            let k0 = if k < pos { k } else { k - 1 };
            let l0 = if l < pos { l } else { l - 1 };
            assert(o2[k] == out[k0] && o2[l] == out[l0]);
            assert(p2[k] == p[k0] && p2[l] == p[l0]);
        } else if l == pos {
            assert(p2[k] == p[k]);
        } else {
            // k == pos < l: x goes before out[l - 1], so this case does not arise
            let y = out[l - 1];
            assert(o2[l] == y);
            if l - 1 > pos {
                assert(!entry_before(order, out[l - 1], out[pos]));
                if !entry_before(order, x, y) {
                    lemma_not_before_transitive(order, x, y, out[pos]);
                }
            }
        }
    }
}

/// Sorts `entries` stably by `order` (insertion sort).
pub fn sort_by_order(order: SortOrder, entries: Vec<FileEntry>) -> (out: Vec<FileEntry>)
    ensures
        stably_sorted(order, out@, entries@),
{
    let ghost inp = entries@;
    let mut src = entries;
    let mut out: Vec<FileEntry> = Vec::new();
    let ghost mut p: Seq<int> = Seq::empty();
    assert(is_stable_sort(order, out@, inp.take(0), p));
    while src.len() > 0
        invariant
            src@ == inp.skip(out@.len() as int),
            out@.len() <= inp.len(),
            is_stable_sort(order, out@, inp.take(out@.len() as int), p),
        decreases src.len(),
    {
        let ghost i = out@.len() as int;
        let x = src.remove(0);
        assert(x == inp[i]);
        assert(inp.skip(i).drop_first() =~= inp.skip(i + 1));
        let mut pos: usize = 0;
        while pos < out.len() && !entry_precedes(order, &x, &out[pos])
            invariant
                pos <= out.len(),
                forall|q: int| 0 <= q < pos ==> !entry_before(order, x, #[trigger] out@[q]),
            decreases out.len() - pos,
        {
            pos = pos + 1;
        }
        proof {
            lemma_insert_sorted(order, out@, inp, p, i, pos as int);
            p = p.insert(pos as int, i);
        }
        out.insert(pos, x);
    }
    assert(inp.take(inp.len() as int) =~= inp);
    out
}

/// Whether `a` is listed before `b` under `order`.
pub fn entry_precedes(order: SortOrder, a: &FileEntry, b: &FileEntry) -> (r: bool)
    ensures
        r == entry_before(order, *a, *b),
{
    if a.is_dir != b.is_dir {
        return a.is_dir;
    }
    match order {
        SortOrder::Name => {
            let ka = chars_of(to_lowercase(a.name.as_str()).as_str());
            let kb = chars_of(to_lowercase(b.name.as_str()).as_str());
            chars_lt(&ka, &kb)
        },
        SortOrder::Size => b.size < a.size,
        SortOrder::Modified => match (&b.modified, &a.modified) {
            (None, Some(_)) => true,
            (Some(x), Some(y)) => x.0 < y.0 || (x.0 == y.0 && x.1 < y.1),
            _ => false,
        },
    }
}

/// The name is shown only with hidden files on: it does not start with `'.'`.
pub open spec fn is_hidden(e: FileEntry) -> bool {
    e.name@.len() > 0 && e.name@[0] == '.'
}

/// The entries of a listing that are shown.
pub open spec fn shown_entries(listing: Seq<FileEntry>, show_hidden: bool) -> Seq<FileEntry>
    decreases listing.len(),
{
    if listing.len() == 0 {
        listing
    } else {
        let rest = shown_entries(listing.drop_last(), show_hidden);
        if show_hidden || !is_hidden(listing.last()) {
            rest.push(listing.last())
        } else {
            rest
        }
    }
}

/// The entry's lowercase name contains the lowercase filter.
pub open spec fn matches_filter(e: FileEntry, filter: Seq<char>) -> bool {
    contains_seq(lowercase(e.name@), lowercase(filter))
}

/// The entries that match the filter, in order.
pub open spec fn filter_entries(entries: Seq<FileEntry>, filter: Seq<char>) -> Seq<FileEntry>
    decreases entries.len(),
{
    if entries.len() == 0 {
        entries
    } else {
        let rest = filter_entries(entries.drop_last(), filter);
        if matches_filter(entries.last(), filter) {
            rest.push(entries.last())
        } else {
            rest
        }
    }
}

/// The cursor kept on the last row of `n` entries (`selected.min(n.saturating_sub(1))`).
pub open spec fn clamp_selected(selected: int, n: int) -> int {
    let last = if n > 0 { n - 1 } else { 0 };
    if selected < last {
        selected
    } else {
        last
    }
}

/// What `push_filter_char` does: `c` is added to the filter and the entries
/// shown are those matching the longer filter, the cursor kept on one of them.
/// For an ASCII filter, its lowercase form is known letter by letter.
pub open spec fn filter_pushed(old: AppState, new: AppState, c: char) -> bool {
    &&& new.file_filter@ == old.file_filter@.push(c)
    &&& new.entries@ == filter_entries(old.entries@, new.file_filter@)
    &&& new.selected == clamp_selected(old.selected as int, new.entries@.len() as int)
    &&& new == (AppState { file_filter: new.file_filter, entries: new.entries, selected: new.selected, ..old })
    &&& all_ascii(new.file_filter@) ==> lowercase(new.file_filter@) == ascii_lowercased(new.file_filter@)
}

/// What `pop_filter_char` does: the filter loses its last character and the
/// entries shown now are kept when they match the shorter filter (all of them
/// when it is empty); entries filtered out before stay out.
pub open spec fn filter_popped(old: AppState, new: AppState) -> bool {
    &&& new.file_filter@ == (if old.file_filter@.len() > 0 {
        old.file_filter@.drop_last()
    } else {
        old.file_filter@
    })
    &&& new.entries@ == (if new.file_filter@.len() == 0 {
        old.entries@
    } else {
        filter_entries(old.entries@, new.file_filter@)
    })
    &&& new.selected == clamp_selected(old.selected as int, new.entries@.len() as int)
    &&& new == (AppState { file_filter: new.file_filter, entries: new.entries, selected: new.selected, ..old })
    &&& new.file_filter@.len() > 0 && all_ascii(new.file_filter@) ==> lowercase(new.file_filter@)
        == ascii_lowercased(new.file_filter@)
}

/// The entries a filter keeps all match it.
proof fn lemma_filtered_match(entries: Seq<FileEntry>, filter: Seq<char>)
    ensures
        forall|i: int| 0 <= i < filter_entries(entries, filter).len() ==> matches_filter(
            #[trigger] filter_entries(entries, filter)[i],
            filter,
        ),
    decreases entries.len(),
{
    if entries.len() > 0 {
        let rest = filter_entries(entries.drop_last(), filter);
        lemma_filtered_match(entries.drop_last(), filter);
        let out = filter_entries(entries, filter);
        assert forall|i: int| 0 <= i < out.len() implies matches_filter(#[trigger] out[i], filter) by {
            if i < rest.len() {
                assert(out[i] == rest[i]);
            }
        }
    }
}

/// A filter that every entry matches keeps them all.
proof fn lemma_filter_keeps_all(entries: Seq<FileEntry>, filter: Seq<char>)
    requires
        forall|i: int| 0 <= i < entries.len() ==> matches_filter(#[trigger] entries[i], filter),
    ensures
        filter_entries(entries, filter) == entries,
    decreases entries.len(),
{
    if entries.len() > 0 {
        let d = entries.drop_last();
        assert forall|i: int| 0 <= i < d.len() implies matches_filter(#[trigger] d[i], filter) by {
            assert(d[i] == entries[i]);
        }
        lemma_filter_keeps_all(d, filter);
        assert(matches_filter(entries[entries.len() - 1], filter));
        assert(d.push(entries.last()) =~= entries);
    }
}

/// A text that contains `n` plus one more character contains `n`.
proof fn lemma_contains_shorter(hay: Seq<char>, n: Seq<char>, c: char)
    requires
        contains_seq(hay, n.push(c)),
    ensures
        contains_seq(hay, n),
{
    let m = n.push(c);
    let i = choose|i: int| 0 <= i <= hay.len() - m.len() && #[trigger] hay.subrange(i, i + m.len()) == m;
    assert(hay.subrange(i, i + n.len()) =~= n) by {
        assert forall|k: int| 0 <= k < n.len() implies hay.subrange(i, i + n.len())[k] == n[k] by {
            assert(hay.subrange(i, i + m.len())[k] == m[k]);
        }
    }
}

/// Typing a character into an ASCII filter and deleting it again gives back
/// the filter and leaves the entries shown, and the cursor, as typing left
/// them: every entry that matches the longer filter matches the shorter one.
pub proof fn law_pop_filter_keeps_entries(s0: AppState, c: char, s1: AppState, s2: AppState)
    requires
        filter_pushed(s0, s1, c),
        filter_popped(s1, s2),
        all_ascii(s0.file_filter@.push(c)),
    ensures
        s2.file_filter@ == s0.file_filter@,
        s2.entries@ == s1.entries@,
        s2 == (AppState { file_filter: s2.file_filter, entries: s2.entries, ..s1 }),
{
    let f = s0.file_filter@;
    let g = f.push(c);
    assert(s1.file_filter@ == g);
    assert(g.drop_last() =~= f);
    if f.len() > 0 {
        assert(all_ascii(f)) by {
            assert forall|i: int| 0 <= i < f.len() implies (#[trigger] f[i] as u32) < 0x80 by {
                assert(g[i] == f[i]);
            }
        }
        assert(ascii_lowercased(g) =~= ascii_lowercased(f).push(crate::text::ascii_lower_char(c)));
        lemma_filtered_match(s0.entries@, g);
        assert forall|i: int| 0 <= i < s1.entries@.len() implies matches_filter(#[trigger] s1.entries@[i], f) by {
            assert(matches_filter(s1.entries@[i], g));
            lemma_contains_shorter(lowercase(s1.entries@[i].name@), ascii_lowercased(f), crate::text::ascii_lower_char(c));
        }
        lemma_filter_keeps_all(s1.entries@, f);
    }
    assert(s2.entries@ == s1.entries@);
    assert(s2.selected == s1.selected);
}

/// The key by which a marked path is recognized: its components.
pub open spec fn mark_key(p: String) -> Seq<Seq<char>> {
    components_of(p@)
}

/// What `toggle_selection` does: the entry under the cursor is marked, or
/// unmarked when it is marked (the `..` row and a cursor past the entries
/// change nothing), no path is marked twice, and nothing else changes.
pub open spec fn selection_toggled(old: AppState, new: AppState) -> bool {
    &&& new.marks_distinct()
    &&& new == (AppState { selected_paths: new.selected_paths, ..old })
    &&& if (old.has_parent_row() && old.selected == 0) || !(0 <= old.entry_index() < old.entries@.len()) {
        new.selected_paths == old.selected_paths
    } else {
        let key = mark_key(old.entries@[old.entry_index()].path);
        new.marked() == (if old.marked().contains(key) {
            old.marked().remove(key)
        } else {
            old.marked().insert(key)
        })
    }
}

/// What `select_by_path` does: the cursor goes to the row of the first entry
/// whose path equals `path` (as a path); without one nothing changes.
pub open spec fn path_selected(old: AppState, new: AppState, path: Seq<char>) -> bool {
    let offset: int = if old.has_parent_row() { 1 } else { 0 };
    let found = exists|i: int| 0 <= i < old.entries@.len()
        && components_of(#[trigger] old.entries@[i].path@) == components_of(path);
    if found {
        let i = new.selected - offset;
        &&& 0 <= i < old.entries@.len()
        &&& components_of(old.entries@[i].path@) == components_of(path)
        &&& forall|j: int| 0 <= j < i ==> components_of(#[trigger] old.entries@[j].path@)
            != components_of(path)
        &&& new == (AppState { selected: new.selected, ..old })
    } else {
        new == old
    }
}

/// After selecting a listed path, the entry under the cursor is the first
/// entry with that path (the `..` row counted when selecting and taken off
/// again when reading), and only the cursor has moved.
pub proof fn law_selected_entry_after_select_by_path(old: AppState, new: AppState, path: Seq<char>, k: int)
    requires
        path_selected(old, new, path),
        0 <= k < old.entries@.len(),
        components_of(old.entries@[k].path@) == components_of(path),
    ensures
        0 <= new.entry_index() <= k,
        components_of(new.entries@[new.entry_index()].path@) == components_of(path),
        forall|j: int| 0 <= j < new.entry_index() ==> components_of(#[trigger] new.entries@[j].path@)
            != components_of(path),
        new == (AppState { selected: new.selected, ..old }),
{
    assert(components_of(old.entries@[k].path@) == components_of(path));
    let offset: int = if old.has_parent_row() { 1 } else { 0 };
    let i = new.selected - offset;
    if i > k {
        assert(components_of(old.entries@[k].path@) != components_of(path));
    }
    assert(new.entry_index() == i);
}

proof fn lemma_increasing_lower(p: Seq<int>, k: int)
    requires
        0 <= k < p.len(),
        forall|i: int| 0 <= i < p.len() ==> 0 <= #[trigger] p[i],
        forall|i: int, j: int| 0 <= i < j < p.len() ==> #[trigger] p[i] < #[trigger] p[j],
    ensures
        p[k] >= k,
    decreases k,
{
    if k > 0 {
        lemma_increasing_lower(p, k - 1);
        assert(p[k - 1] < p[k]);
    }
}

proof fn lemma_increasing_upper(p: Seq<int>, n: int, k: int)
    requires
        0 <= k < p.len(),
        p.len() == n,
        forall|i: int| 0 <= i < p.len() ==> #[trigger] p[i] < n,
        forall|i: int, j: int| 0 <= i < j < p.len() ==> #[trigger] p[i] < #[trigger] p[j],
    ensures
        p[k] <= k,
    decreases n - k,
{
    if k < n - 1 {
        lemma_increasing_upper(p, n, k + 1);
        assert(p[k] < p[k + 1]);
    }
}

/// Sorting a listing that is already in order leaves it as it is.
pub proof fn law_sorting_keeps_sorted_listing(order: SortOrder, inp: Seq<FileEntry>, out: Seq<FileEntry>)
    requires
        forall|k: int, l: int| 0 <= k < l < inp.len() ==> !entry_before(order, #[trigger] inp[l], #[trigger] inp[k]),
        stably_sorted(order, out, inp),
    ensures
        out == inp,
{
    let p = choose|p: Seq<int>| is_stable_sort(order, out, inp, p);
    assert forall|k: int, l: int| 0 <= k < l < p.len() implies #[trigger] p[k] < #[trigger] p[l] by {
        assert(p[k] != p[l]);
        if p[l] < p[k] {
            if entry_before(order, out[k], out[l]) {
                assert(out[k] == inp[p[k]] && out[l] == inp[p[l]]);
                assert(!entry_before(order, inp[p[k]], inp[p[l]]));
            } else {
                assert(p[k] < p[l]);
            }
        }
    }
    assert forall|k: int| 0 <= k < out.len() implies out[k] == inp[k] by {
        lemma_increasing_lower(p, k);
        lemma_increasing_upper(p, inp.len() as int, k);
    }
    assert(out =~= inp);
}

spec fn takes_value(p: Seq<int>, x: int) -> bool {
    exists|k: int| 0 <= k < p.len() && p[k] == x
}

proof fn lemma_injection_is_onto(p: Seq<int>, n: int)
    requires
        p.len() == n,
        forall|k: int| 0 <= k < n ==> 0 <= #[trigger] p[k] < n,
        forall|k: int, l: int| 0 <= k < l < n ==> #[trigger] p[k] != #[trigger] p[l],
    ensures
        forall|x: int| 0 <= x < n ==> #[trigger] takes_value(p, x),
{
    assert(p.no_duplicates()) by {
        assert forall|i: int, j: int| 0 <= i < p.len() && 0 <= j < p.len() && i != j implies p[i] != p[j] by {
            if i < j {
                assert(p[i] != p[j]);
            } else {
                assert(p[j] != p[i]);
            }
        }
    }
    p.unique_seq_to_set();
    vstd::set_lib::lemma_int_range(0, n);
    let range = vstd::set_lib::set_int_range(0, n);
    assert(p.to_set().subset_of(range)) by {
        assert forall|x: int| p.to_set().contains(x) implies range.contains(x) by {
            assert(p.contains(x));
            let k = choose|k: int| 0 <= k < p.len() && p[k] == x;
            assert(0 <= p[k] < n);
        }
    }
    vstd::set_lib::lemma_len_subset(p.to_set(), range);
    vstd::set_lib::lemma_subset_equality(p.to_set(), range);
    assert forall|x: int| 0 <= x < n implies #[trigger] takes_value(p, x) by {
        assert(range.contains(x));
        assert(p.to_set().contains(x));
        assert(p.contains(x));
    }
}

/// Sorting determines the order completely: any two stable sorts of the
/// same entries by the same order agree.
pub proof fn law_sort_result_is_unique(order: SortOrder, inp: Seq<FileEntry>, out1: Seq<FileEntry>, out2: Seq<FileEntry>)
    requires
        stably_sorted(order, out1, inp),
        stably_sorted(order, out2, inp),
    ensures
        out1 == out2,
{
    let p = choose|p: Seq<int>| is_stable_sort(order, out1, inp, p);
    let q = choose|q: Seq<int>| is_stable_sort(order, out2, inp, q);
    let n = inp.len() as int;
    lemma_injection_is_onto(p, n);
    let s = Seq::new(n as nat, |k: int| choose|j: int| 0 <= j < n && p[j] == q[k]);
    assert forall|k: int| 0 <= k < n implies 0 <= #[trigger] s[k] < n && p[s[k]] == q[k] by {
        assert(0 <= q[k] < n);
        assert(takes_value(p, q[k]));
    }
    assert forall|k: int| 0 <= k < n implies #[trigger] out2[k] == out1[s[k]] by {
        assert(0 <= s[k] < n && p[s[k]] == q[k]);
    }
    assert forall|k: int, l: int| 0 <= k < l < n implies #[trigger] s[k] < #[trigger] s[l] by {
        assert(0 <= s[k] < n && p[s[k]] == q[k]);
        assert(0 <= s[l] < n && p[s[l]] == q[l]);
        assert(q[k] != q[l]);
        assert(s[k] != s[l]);
        if s[l] < s[k] {
            assert(out2[k] == out1[s[k]] && out2[l] == out1[s[l]]);
            assert(!entry_before(order, out1[s[k]], out1[s[l]]));
            assert(!entry_before(order, out2[l], out2[k]));
            assert(q[k] < q[l]);
            assert(p[s[l]] < p[s[k]]);
        }
    }
    assert forall|k: int| 0 <= k < n implies out1[k] == out2[k] by {
        lemma_increasing_lower(s, k);
        lemma_increasing_upper(s, n, k);
    }
    assert(out1 =~= out2);
}

/// Reading a directory again with nothing changed on disk, under the same
/// settings and filter, shows the same entries.
pub proof fn law_listing_is_determined(
    a: AppState,
    b: AppState,
    listing: Seq<FileEntry>,
    sorted_a: Seq<FileEntry>,
    sorted_b: Seq<FileEntry>,
)
    requires
        a.listed(listing, sorted_a),
        b.listed(listing, sorted_b),
        a.sort_order == b.sort_order,
        a.show_hidden == b.show_hidden,
        a.file_filter@ == b.file_filter@,
    ensures
        a.entries@ == b.entries@,
{
    law_sort_result_is_unique(a.sort_order, shown_entries(listing, a.show_hidden), sorted_a, sorted_b);
}

/// Toggling the mark of the same entry twice gives back the marked paths.
pub proof fn law_toggle_selection_twice(a: AppState, b: AppState, c: AppState)
    requires
        selection_toggled(a, b),
        selection_toggled(b, c),
    ensures
        c.marked() == a.marked(),
{
    if !((a.has_parent_row() && a.selected == 0) || !(0 <= a.entry_index() < a.entries@.len())) {
        let key = mark_key(a.entries@[a.entry_index()].path);
        if a.marked().contains(key) {
            assert(c.marked() =~= a.marked());
        } else {
            assert(c.marked() =~= a.marked());
        }
    }
}

/// The state of the file list.
#[derive(Debug, Clone)]
pub struct AppState {
    pub cwd: String,
    pub entries: Vec<FileEntry>,
    pub selected: usize,
    pub sort_order: SortOrder,
    pub show_hidden: bool,
    pub preview_open: bool,
    pub show_git_diff: bool,
    pub calculate_dir_size: bool,
    pub selected_paths: Vec<String>,
    pub file_filter: String,
    pub filter_active: bool,
}

impl AppState {
    /// The current directory has a parent, shown as the `..` row 0.
    pub open spec fn has_parent_row(&self) -> bool {
        parent_of(self.cwd@) is Some
    }

    /// The index into `entries` of the cursor row (the `..` row maps to 0).
    pub open spec fn entry_index(&self) -> int {
        if self.has_parent_row() {
            if self.selected >= 1 {
                self.selected - 1
            } else {
                0
            }
        } else {
            self.selected as int
        }
    }

    /// The marked paths, as path keys.
    pub open spec fn marked(&self) -> Set<Seq<Seq<char>>> {
        Set::new(|c: Seq<Seq<char>>| exists|i: int| 0 <= i < self.selected_paths@.len() && #[trigger] mark_key(self.selected_paths@[i]) == c)
    }

    /// No path is marked twice.
    pub open spec fn marks_distinct(&self) -> bool {
        forall|i: int, j: int|
            0 <= i < j < self.selected_paths@.len() ==> #[trigger] mark_key(self.selected_paths@[i])
                != #[trigger] mark_key(self.selected_paths@[j])
    }

    /// The listing as `load_dir` leaves it for `listing`.
    pub open spec fn listed(&self, listing: Seq<FileEntry>, sorted: Seq<FileEntry>) -> bool {
        &&& stably_sorted(self.sort_order, sorted, shown_entries(listing, self.show_hidden))
        &&& self.entries@ == (if self.file_filter@.len() == 0 {
            sorted
        } else {
            filter_entries(sorted, self.file_filter@)
        })
    }

    /// A fresh state for the directory `cwd`: no entries, cursor on row 0,
    /// sorted by name, hidden files and preview off, nothing marked, no filter.
    pub fn new(cwd: String) -> (s: Self)
        ensures
            s.cwd@ == cwd@,
            s.entries@.len() == 0,
            s.selected == 0,
            s.sort_order == SortOrder::Name,
            !s.show_hidden,
            !s.preview_open,
            !s.show_git_diff,
            !s.calculate_dir_size,
            s.selected_paths@.len() == 0,
            s.file_filter@.len() == 0,
            !s.filter_active,
    {
        AppState {
            cwd,
            entries: Vec::new(),
            selected: 0,
            sort_order: SortOrder::Name,
            show_hidden: false,
            preview_open: false,
            show_git_diff: false,
            calculate_dir_size: false,
            selected_paths: Vec::new(),
            file_filter: String::new(),
            filter_active: false,
        }
    }

    /// Shows the listing of the current directory: `listing` holds its
    /// entries as read from the file system; hidden names are dropped unless
    /// shown, the rest sorted and filtered, and the cursor kept in range.
    pub fn load_dir(&mut self, listing: Vec<FileEntry>)
        ensures
            exists|sorted: Seq<FileEntry>| #[trigger] final(self).listed(listing@, sorted),
            final(self).selected == clamp_selected(old(self).selected as int, final(self).entries@.len() as int),
            final(self).cwd == old(self).cwd,
            final(self).sort_order == old(self).sort_order,
            final(self).show_hidden == old(self).show_hidden,
            final(self).preview_open == old(self).preview_open,
            final(self).show_git_diff == old(self).show_git_diff,
            final(self).calculate_dir_size == old(self).calculate_dir_size,
            final(self).selected_paths == old(self).selected_paths,
            final(self).file_filter == old(self).file_filter,
            final(self).filter_active == old(self).filter_active,
    {
        let ghost lv = listing@;
        let mut shown: Vec<FileEntry> = Vec::new();
        let mut rest = listing;
        let ghost mut taken: int = 0;
        while rest.len() > 0
            invariant
                0 <= taken <= lv.len(),
                rest@ == lv.skip(taken),
                shown@ == shown_entries(lv.take(taken), self.show_hidden),
            decreases rest.len(),
        {
            let e = rest.remove(0);
            assert(e == lv[taken]);
            assert(lv.skip(taken).drop_first() =~= lv.skip(taken + 1));
            assert(lv.take(taken + 1).drop_last() =~= lv.take(taken));
            let hidden = starts_with_dot(&e.name);
            if self.show_hidden || !hidden {
                shown.push(e);
            }
            assert(lv.take(taken + 1).last() == e);
            proof {
                taken = taken + 1;
            }
        }
        assert(lv.take(lv.len() as int) =~= lv);
        let ghost shown_v = shown@;
        self.entries = sort_by_order(self.sort_order, shown);
        let ghost sorted = self.entries@;
        self.apply_filter();
        self.clamp_selection();
        assert(self.listed(lv, sorted));
    }

    /// Re-reads the current directory: the same as `load_dir`.
    pub fn refresh(&mut self, listing: Vec<FileEntry>)
        ensures
            exists|sorted: Seq<FileEntry>| #[trigger] final(self).listed(listing@, sorted),
            final(self).selected == clamp_selected(old(self).selected as int, final(self).entries@.len() as int),
            final(self).cwd == old(self).cwd,
            final(self).sort_order == old(self).sort_order,
            final(self).show_hidden == old(self).show_hidden,
            final(self).preview_open == old(self).preview_open,
            final(self).show_git_diff == old(self).show_git_diff,
            final(self).calculate_dir_size == old(self).calculate_dir_size,
            final(self).selected_paths == old(self).selected_paths,
            final(self).file_filter == old(self).file_filter,
            final(self).filter_active == old(self).filter_active,
    {
        self.load_dir(listing);
    }

    fn clamp_selection(&mut self)
        ensures
            *final(self) == (AppState {
                selected: clamp_selected(old(self).selected as int, old(self).entries@.len() as int) as usize,
                ..*old(self)
            }),
    {
        let last = if self.entries.len() > 0 { self.entries.len() - 1 } else { 0 };
        if self.selected >= last {
            self.selected = last;
        }
    }

    /// Keeps the entries whose lowercase name contains the lowercase filter;
    /// with an empty filter nothing changes.
    pub fn apply_filter(&mut self)
        ensures
            *final(self) == (AppState {
                entries: final(self).entries,
                ..*old(self)
            }),
            final(self).entries@ == (if old(self).file_filter@.len() == 0 {
                old(self).entries@
            } else {
                filter_entries(old(self).entries@, old(self).file_filter@)
            }),
            old(self).file_filter@.len() > 0 && all_ascii(old(self).file_filter@) ==> lowercase(
                old(self).file_filter@,
            ) == ascii_lowercased(old(self).file_filter@),
    {
        if self.file_filter.as_str().is_empty() {
            return ;
        }
        let needle = chars_of(to_lowercase(self.file_filter.as_str()).as_str());
        let mut kept: Vec<FileEntry> = Vec::new();
        let mut rest: Vec<FileEntry> = Vec::new();
        std::mem::swap(&mut rest, &mut self.entries);
        let ghost ev = rest@;
        let ghost mut taken: int = 0;
        while rest.len() > 0
            invariant
                0 <= taken <= ev.len(),
                rest@ == ev.skip(taken),
                needle@ == lowercase(self.file_filter@),
                kept@ == filter_entries(ev.take(taken), self.file_filter@),
            decreases rest.len(),
        {
            let e = rest.remove(0);
            assert(e == ev[taken]);
            assert(ev.skip(taken).drop_first() =~= ev.skip(taken + 1));
            assert(ev.take(taken + 1).drop_last() =~= ev.take(taken));
            let hay = chars_of(to_lowercase(e.name.as_str()).as_str());
            if chars_contain(&hay, &needle) {
                kept.push(e);
            }
            proof {
                taken = taken + 1;
            }
        }
        assert(ev.take(ev.len() as int) =~= ev);
        self.entries = kept;
    }

    /// Starts typing a filter: active, and empty.
    pub fn start_filter(&mut self)
        ensures
            final(self).filter_active,
            final(self).file_filter@.len() == 0,
            *final(self) == (AppState {
                filter_active: true,
                file_filter: final(self).file_filter,
                ..*old(self)
            }),
    {
        self.filter_active = true;
        self.file_filter = String::new();
    }

    /// Drops the filter and shows the whole `listing` of the directory again.
    pub fn cancel_filter(&mut self, listing: Vec<FileEntry>)
        ensures
            !final(self).filter_active,
            final(self).file_filter@.len() == 0,
            exists|sorted: Seq<FileEntry>| #[trigger] final(self).listed(listing@, sorted),
            final(self).selected == clamp_selected(old(self).selected as int, final(self).entries@.len() as int),
            final(self).cwd == old(self).cwd,
            final(self).sort_order == old(self).sort_order,
            final(self).show_hidden == old(self).show_hidden,
            final(self).preview_open == old(self).preview_open,
            final(self).show_git_diff == old(self).show_git_diff,
            final(self).calculate_dir_size == old(self).calculate_dir_size,
            final(self).selected_paths == old(self).selected_paths,
    {
        self.filter_active = false;
        self.file_filter = String::new();
        self.load_dir(listing);
    }

    /// Adds `c` to the filter and filters the shown entries further; the
    /// cursor stays in range.
    pub fn push_filter_char(&mut self, c: char)
        ensures
            filter_pushed(*old(self), *final(self), c),
    {
        let mut f = chars_of(self.file_filter.as_str());
        f.push(c);
        self.file_filter = crate::text::string_from_chars(&f);
        self.apply_filter();
        self.clamp_selection();
    }

    /// Removes the last character of the filter and applies the shorter filter
    /// to the entries shown now (entries already filtered out stay out).
    pub fn pop_filter_char(&mut self)
        ensures
            filter_popped(*old(self), *final(self)),
    {
        let mut f = chars_of(self.file_filter.as_str());
        f.pop();
        self.file_filter = crate::text::string_from_chars(&f);
        self.apply_filter();
        self.clamp_selection();
    }

    /// Sorts the entries by the current order (stable).
    pub fn sort_entries(&mut self)
        ensures
            stably_sorted(old(self).sort_order, final(self).entries@, old(self).entries@),
            *final(self) == (AppState { entries: final(self).entries, ..*old(self) }),
    {
        let mut taken: Vec<FileEntry> = Vec::new();
        std::mem::swap(&mut taken, &mut self.entries);
        self.entries = sort_by_order(self.sort_order, taken);
    }

    /// The entry under the cursor; the `..` row counts as the first entry.
    pub fn selected_entry(&self) -> (r: Option<&FileEntry>)
        ensures
            r == (if 0 <= self.entry_index() < self.entries@.len() {
                Some(&self.entries@[self.entry_index()])
            } else {
                None
            }),
    {
        let idx = if has_parent(self.cwd.as_str()) {
            if self.selected >= 1 {
                self.selected - 1
            } else {
                0
            }
        } else {
            self.selected
        };
        if idx < self.entries.len() {
            Some(&self.entries[idx])
        } else {
            None
        }
    }

    /// When the entry under the cursor is a directory, makes it the current
    /// directory with the cursor on row 0 and returns `true`; the caller then
    /// shows its listing with `load_dir`. Otherwise nothing changes.
    pub fn cd_into(&mut self) -> (entered: bool)
        ensures
            entered == (0 <= old(self).entry_index() < old(self).entries@.len()
                && old(self).entries@[old(self).entry_index()].is_dir),
            *final(self) == (if entered {
                AppState {
                    cwd: old(self).entries@[old(self).entry_index()].path,
                    selected: 0,
                    ..*old(self)
                }
            } else {
                *old(self)
            }),
    {
        let path = match self.selected_entry() {
            Some(entry) => if entry.is_dir {
                Some(entry.path.clone())
            } else {
                None
            },
            None => None,
        };
        match path {
            Some(p) => {
                self.cwd = p;
                self.selected = 0;
                true
            },
            None => false,
        }
    }

    /// Moves to the parent directory, cursor on row 0, and returns `true`;
    /// the caller then shows its listing with `load_dir`. At a root nothing
    /// changes.
    pub fn cd_parent(&mut self) -> (moved: bool)
        ensures
            moved == old(self).has_parent_row(),
            moved ==> final(self).cwd@ == parent_of(old(self).cwd@)->0,
            *final(self) == (if moved {
                AppState { cwd: final(self).cwd, selected: 0, ..*old(self) }
            } else {
                *old(self)
            }),
    {
        match path_parent(self.cwd.as_str()) {
            Some(parent) => {
                self.cwd = parent;
                self.selected = 0;
                true
            },
            None => false,
        }
    }

    /// The cursor is on the `..` row.
    pub fn is_parent_selected(&self) -> (r: bool)
        ensures
            r == (self.has_parent_row() && self.selected == 0),
    {
        has_parent(self.cwd.as_str()) && self.selected == 0
    }

    /// Marks the entry under the cursor, or unmarks it when it is marked; the
    /// `..` row cannot be marked.
    pub fn toggle_selection(&mut self)
        requires
            old(self).marks_distinct(),
        ensures
            selection_toggled(*old(self), *final(self)),
    {
        if self.is_parent_selected() {
            return ;
        }
        let path = match self.selected_entry() {
            Some(e) => Some(e.path.clone()),
            None => None,
        };
        if let Some(path) = path {
            let ghost key = mark_key(path);
            let ghost sv = self.selected_paths@;
            let found = position_of_path(&self.selected_paths, path.as_str());
            if let Some(i) = found {
                let ghost before = self.marked();
                self.selected_paths.remove(i);
                proof {
                    let after = self.marked();
                    assert(before.contains(key)) by {
                        assert(mark_key(sv[i as int]) == key);
                    }
                    assert forall|c: Seq<Seq<char>>| after.contains(c) == before.remove(key).contains(c) by {
                        if after.contains(c) {
                            let j = choose|j: int| 0 <= j < self.selected_paths@.len() && #[trigger] mark_key(self.selected_paths@[j]) == c;
                            let j0 = if j < i { j } else { j + 1 };
                            assert(mark_key(sv[j0]) == c);
                            if j0 < i {
                                assert(mark_key(sv[j0]) != mark_key(sv[i as int]));
                            } else {
                                assert(mark_key(sv[i as int]) != mark_key(sv[j0]));
                            }
                            assert(c != key);
                        }
                        if before.remove(key).contains(c) {
                            let j = choose|j: int| 0 <= j < sv.len() && #[trigger] mark_key(sv[j]) == c;
                            assert(j != i);
                            let j1 = if j < i { j } else { j - 1 };
                            assert(self.selected_paths@[j1] == sv[j]);
                        }
                    }
                    assert(after =~= before.remove(key));
                }
            } else {
                let ghost before = self.marked();
                self.selected_paths.push(path);
                proof {
                    let after = self.marked();
                    assert(!before.contains(key)) by {
                        if before.contains(key) {
                            let j = choose|j: int| 0 <= j < sv.len() && #[trigger] mark_key(sv[j]) == key;
                        }
                    }
                    assert forall|c: Seq<Seq<char>>| after.contains(c) == before.insert(key).contains(c) by {
                        if after.contains(c) {
                            let j = choose|j: int| 0 <= j < self.selected_paths@.len() && #[trigger] mark_key(self.selected_paths@[j]) == c;
                            if j < sv.len() {
                                assert(mark_key(sv[j]) == c);
                            }
                        }
                        if before.insert(key).contains(c) {
                            if c == key {
                                assert(mark_key(self.selected_paths@[sv.len() as int]) == c);
                            } else {
                                let j = choose|j: int| 0 <= j < sv.len() && #[trigger] mark_key(sv[j]) == c;
                                assert(self.selected_paths@[j] == sv[j]);
                            }
                        }
                    }
                    assert(after =~= before.insert(key));
                }
            }
        }
    }

    /// Unmarks every path.
    pub fn clear_selection(&mut self)
        ensures
            final(self).selected_paths@.len() == 0,
            *final(self) == (AppState { selected_paths: final(self).selected_paths, ..*old(self) }),
    {
        self.selected_paths.clear();
    }

    /// Puts the cursor on the first entry whose path equals `path` (as a
    /// path); without such an entry nothing changes.
    pub fn select_by_path(&mut self, path: &str)
        ensures
            path_selected(*old(self), *final(self), path@),
    {
        let base_offset: usize = if has_parent(self.cwd.as_str()) { 1 } else { 0 };
        let n = self.entries.len();
        let mut i: usize = 0;
        while i < n
            invariant
                n == self.entries@.len(),
                i <= n,
                *self == *old(self),
                base_offset == (if old(self).has_parent_row() { 1usize } else { 0usize }),
                forall|j: int| 0 <= j < i ==> components_of(#[trigger] self.entries@[j].path@) != components_of(path@),
            decreases n - i,
        {
            if same_path(self.entries[i].path.as_str(), path) {
                self.selected = i + base_offset;
                assert(components_of(old(self).entries@[i as int].path@) == components_of(path@));
                return ;
            }
            i = i + 1;
        }
    }

    /// Selects the file at `path`; the line is not used.
    pub fn select_by_path_and_line(&mut self, path: &str, _line: usize)
        ensures
            path_selected(*old(self), *final(self), path@),
    {
        self.select_by_path(path);
    }
}

/// Where a path equal to `path` (as a path) is in `paths`.
fn position_of_path(paths: &Vec<String>, path: &str) -> (r: Option<usize>)
    ensures
        match r {
            Some(i) => i < paths@.len() && mark_key(paths@[i as int]) == components_of(path@),
            None => forall|j: int| 0 <= j < paths@.len() ==> #[trigger] mark_key(paths@[j]) != components_of(path@),
        },
{
    let mut i: usize = 0;
    while i < paths.len()
        invariant
            i <= paths@.len(),
            forall|j: int| 0 <= j < i ==> #[trigger] mark_key(paths@[j]) != components_of(path@),
        decreases paths.len() - i,
    {
        if same_path(paths[i].as_str(), path) {
            return Some(i);
        }
        i = i + 1;
    }
    None
}

/// The name starts with `'.'`.
fn starts_with_dot(name: &String) -> (r: bool)
    ensures
        r == (name@.len() > 0 && name@[0] == '.'),
{
    let chars = chars_of(name.as_str());
    chars.len() > 0 && chars[0] == '.'
}

} // verus!
