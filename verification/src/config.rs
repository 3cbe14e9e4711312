//! The settings that persist between runs, and how stored settings fill in
//! their defaults.
use vstd::prelude::*;
use crate::state::SortOrder;
use crate::text::{chars_equal, chars_of, clone_lines};

verus! {

/// The persistent settings.
#[derive(Debug, Clone)]
pub struct Config {
    pub theme: String,
    pub show_hidden: bool,
    pub preview_enabled: bool,
    pub calculate_dir_size: bool,
    pub sort_order: SortOrder,
    pub bookmarks: Vec<String>,
}

/// The settings as the configuration file holds them; any may be missing.
#[derive(Debug, Clone)]
pub struct StoredConfig {
    pub theme: Option<String>,
    pub show_hidden: Option<bool>,
    pub preview_enabled: Option<bool>,
    pub calculate_dir_size: Option<bool>,
    pub sort_order: Option<SortOrder>,
    pub bookmarks: Option<Vec<String>>,
}

impl Default for Config {
    /// Theme `tokyo-night`, preview on, hidden files and directory sizes off,
    /// sorted by name, no bookmarks.
    fn default() -> (c: Self)
        ensures
            c.theme@ == "tokyo-night"@,
            !c.show_hidden,
            c.preview_enabled,
            !c.calculate_dir_size,
            c.sort_order == SortOrder::Name,
            c.bookmarks@.len() == 0,
    {
        Config {
            theme: "tokyo-night".to_owned(),
            show_hidden: false,
            preview_enabled: true,
            calculate_dir_size: false,
            sort_order: SortOrder::Name,
            bookmarks: Vec::new(),
        }
    }
}

impl Config {
    /// The settings from a configuration file: each missing one takes its
    /// default.
    pub fn from_stored(stored: StoredConfig) -> (c: Self)
        ensures
            c.theme@ == match stored.theme { Some(t) => t@, None => "tokyo-night"@ },
            c.show_hidden == match stored.show_hidden { Some(b) => b, None => false },
            c.preview_enabled == match stored.preview_enabled { Some(b) => b, None => true },
            c.calculate_dir_size == match stored.calculate_dir_size { Some(b) => b, None => false },
            c.sort_order == match stored.sort_order { Some(o) => o, None => SortOrder::Name },
            c.bookmarks@ == match stored.bookmarks { Some(b) => b@, None => Seq::empty() },
    {
        Config {
            theme: match stored.theme {
                Some(t) => t,
                None => "tokyo-night".to_owned(),
            },
            show_hidden: match stored.show_hidden {
                Some(b) => b,
                None => false,
            },
            preview_enabled: match stored.preview_enabled {
                Some(b) => b,
                None => true,
            },
            calculate_dir_size: match stored.calculate_dir_size {
                Some(b) => b,
                None => false,
            },
            sort_order: match stored.sort_order {
                Some(o) => o,
                None => SortOrder::Name,
            },
            bookmarks: match stored.bookmarks {
                Some(b) => b,
                None => Vec::new(),
            },
        }
    }

    /// The settings as they are written to the configuration file: all of
    /// them present.
    pub fn to_stored(&self) -> (s: StoredConfig)
        ensures
            s.theme matches Some(t) && t@ == self.theme@,
            s.show_hidden == Some(self.show_hidden),
            s.preview_enabled == Some(self.preview_enabled),
            s.calculate_dir_size == Some(self.calculate_dir_size),
            s.sort_order == Some(self.sort_order),
            s.bookmarks matches Some(b) && b.deep_view() == self.bookmarks.deep_view(),
    {
        StoredConfig {
            theme: Some(self.theme.clone()),
            show_hidden: Some(self.show_hidden),
            preview_enabled: Some(self.preview_enabled),
            calculate_dir_size: Some(self.calculate_dir_size),
            sort_order: Some(self.sort_order),
            bookmarks: Some(clone_lines(&self.bookmarks)),
        }
    }
}

/// The themes, in the order cycling goes through them.
pub open spec fn theme_name_list() -> Seq<Seq<char>> {
    seq![
        "tokyo-night"@,
        "dracula"@,
        "nord"@,
        "solarized-dark"@,
        "catppuccin-mocha"@,
        "one-dark"@,
        "monokai"@,
        "gruvbox-dark"@,
    ]
}

/// The names of the themes, in the order cycling goes through them.
pub fn theme_names() -> (r: Vec<String>)
    ensures
        r.deep_view() == theme_name_list(),
{
    let r = vec![
        "tokyo-night".to_string(),
        "dracula".to_string(),
        "nord".to_string(),
        "solarized-dark".to_string(),
        "catppuccin-mocha".to_string(),
        "one-dark".to_string(),
        "monokai".to_string(),
        "gruvbox-dark".to_string(),
    ];
    assert(r.deep_view() =~= theme_name_list());
    r
}

/// `i` is the first index of `names` holding `current`.
pub open spec fn first_index(names: Seq<Seq<char>>, current: Seq<char>, i: int) -> bool {
    &&& 0 <= i < names.len()
    &&& names[i] == current
    &&& forall|j: int| 0 <= j < i ==> names[j] != current
}

/// The name after the first `current` in `names`, the first name after the
/// last one; none when `current` is not among them.
pub open spec fn theme_after(names: Seq<Seq<char>>, current: Seq<char>) -> Option<Seq<char>> {
    if exists|i: int| first_index(names, current, i) {
        let i = choose|i: int| first_index(names, current, i);
        Some(names[(i + 1) % (names.len() as int)])
    } else {
        None
    }
}

/// Where cycling `k` times from `current` leads; nowhere once a theme is not
/// among `names`.
pub open spec fn theme_after_steps(names: Seq<Seq<char>>, current: Seq<char>, k: nat) -> Option<Seq<char>>
    decreases k,
{
    if k == 0 {
        Some(current)
    } else {
        match theme_after_steps(names, current, (k - 1) as nat) {
            Some(c) => theme_after(names, c),
            None => None,
        }
    }
}

/// With no name twice, cycling from the `i`-th name moves to the next one,
/// and from the last back to the first.
pub proof fn law_theme_after_is_next(names: Seq<Seq<char>>, i: int)
    requires
        0 <= i < names.len(),
        forall|a: int, b: int| 0 <= a < b < names.len() ==> names[a] != names[b],
    ensures
        theme_after(names, names[i]) == Some(names[(i + 1) % (names.len() as int)]),
{
    assert(first_index(names, names[i], i));
    let k = choose|k: int| first_index(names, names[i], k);
    if k < i {
        assert(names[k] != names[i]);
    } else if k > i {
        assert(names[i] != names[k]);
    }
}

/// With no name twice, cycling as many times as there are names comes back
/// to the theme it started from.
pub proof fn law_theme_cycle_returns(names: Seq<Seq<char>>, i: int)
    requires
        0 <= i < names.len(),
        forall|a: int, b: int| 0 <= a < b < names.len() ==> names[a] != names[b],
    ensures
        theme_after_steps(names, names[i], names.len()) == Some(names[i]),
{
    lemma_steps(names, i, names.len());
    vstd::arithmetic::div_mod::lemma_mod_self_0(names.len() as int);
    vstd::arithmetic::div_mod::lemma_add_mod_noop(i, names.len() as int, names.len() as int);
    vstd::arithmetic::div_mod::lemma_small_mod(i as nat, names.len());
}

proof fn lemma_steps(names: Seq<Seq<char>>, i: int, k: nat)
    requires
        0 <= i < names.len(),
        forall|a: int, b: int| 0 <= a < b < names.len() ==> names[a] != names[b],
    ensures
        theme_after_steps(names, names[i], k) == Some(names[(i + k) % (names.len() as int)]),
    decreases k,
{
    let n = names.len() as int;
    if k == 0 {
        vstd::arithmetic::div_mod::lemma_small_mod(i as nat, n as nat);
    } else {
        lemma_steps(names, i, (k - 1) as nat);
        let j = (i + k - 1) % n;
        vstd::arithmetic::div_mod::lemma_mod_bound(i + k - 1, n);
        law_theme_after_is_next(names, j);
        vstd::arithmetic::div_mod::lemma_add_mod_noop(i + k - 1, 1, n);
        if n > 1 {
            vstd::arithmetic::div_mod::lemma_small_mod(1, n as nat);
        } else {
            assert((j + 1) % n == 0);
            assert((i + k) % n == 0);
        }
    }
}

/// The theme that cycling moves to from `current` (see `theme_after`).
pub fn next_theme(names: &Vec<String>, current: &str) -> (r: Option<String>)
    ensures
        match r {
            Some(n) => theme_after(names.deep_view(), current@) == Some(n@),
            None => theme_after(names.deep_view(), current@) is None,
        },
{
    let ghost v = names.deep_view();
    let target = chars_of(current);
    let mut i: usize = 0;
    while i < names.len()
        invariant
            v == names.deep_view(),
            target@ == current@,
            i <= names@.len(),
            forall|j: int| 0 <= j < i ==> v[j] != current@,
        decreases names.len() - i,
    {
        if chars_equal(&chars_of(names[i].as_str()), &target) {
            proof {
                assert(first_index(v, current@, i as int));
                let k = choose|k: int| first_index(v, current@, k);
                if k < i {
                    assert(v[k] != current@);
                } else if k > i {
                    assert(v[i as int] != current@);
                }
            }
            let next = (i + 1) % names.len();
            return Some(names[next].clone());
        }
        i = i + 1;
    }
    proof {
        if exists|k: int| first_index(v, current@, k) {
            let k = choose|k: int| first_index(v, current@, k);
            assert(v[k] != current@);
        }
    }
    None
}

/// Storing the settings and reading them back gives the same settings.
pub proof fn law_stored_round_trip(c: Config, s: StoredConfig, back: Config)
    requires
        s.theme matches Some(t) && t@ == c.theme@,
        s.show_hidden == Some(c.show_hidden),
        s.preview_enabled == Some(c.preview_enabled),
        s.calculate_dir_size == Some(c.calculate_dir_size),
        s.sort_order == Some(c.sort_order),
        s.bookmarks matches Some(b) && b.deep_view() == c.bookmarks.deep_view(),
        back.theme@ == match s.theme { Some(t) => t@, None => "tokyo-night"@ },
        back.show_hidden == match s.show_hidden { Some(b) => b, None => false },
        back.preview_enabled == match s.preview_enabled { Some(b) => b, None => true },
        back.calculate_dir_size == match s.calculate_dir_size { Some(b) => b, None => false },
        back.sort_order == match s.sort_order { Some(o) => o, None => SortOrder::Name },
        back.bookmarks@ == match s.bookmarks { Some(b) => b@, None => Seq::empty() },
    ensures
        back.theme@ == c.theme@,
        back.show_hidden == c.show_hidden,
        back.preview_enabled == c.preview_enabled,
        back.calculate_dir_size == c.calculate_dir_size,
        back.sort_order == c.sort_order,
        back.bookmarks.deep_view() == c.bookmarks.deep_view(),
{
    assert(back.bookmarks.deep_view() =~= s.bookmarks->0.deep_view());
}

} // verus!
