//! Paths as text: the parent of a path, joining and path equality, which
//! `std::path` decides by components under the path rules of the platform
//! the crate is built for.
use vstd::prelude::*;

verus! {

/// What `Path::parent` returns for the path `p`: the path without its last
/// component, or `None` when `p` ends in a root or is empty.
pub uninterp spec fn parent_of(p: Seq<char>) -> Option<Seq<char>>;

/// What `Path::components` yields for `p`, each component as text (`"/"` for
/// the root, `"."` and `".."` for the current and parent directory, the name
/// otherwise). Different components never give the same text, so two paths
/// are equal (`Path`'s `==`) exactly when these sequences are.
pub uninterp spec fn components_of(p: Seq<char>) -> Seq<Seq<char>>;

pub open spec fn opt_text(p: Option<String>) -> Option<Seq<char>> {
    match p {
        Some(s) => Some(s@),
        None => None,
    }
}

/// `Path::parent` of the path `p`, as text.
#[verifier::external_body]
pub(crate) fn path_parent(p: &str) -> (r: Option<String>)
    ensures
        opt_text(r) == parent_of(p@),
{
    match std::path::Path::new(p).parent() {
        Some(q) => Some(q.to_string_lossy().into_owned()),
        None => None,
    }
}

/// `Path::components` of the path `p`, each component as text.
#[verifier::external_body]
pub(crate) fn path_components(p: &str) -> (r: Vec<String>)
    ensures
        r.deep_view() == components_of(p@),
{
    let mut v = Vec::new();
    for c in std::path::Path::new(p).components() {
        v.push(c.as_os_str().to_string_lossy().into_owned());
    }
    v
}

/// What `Path::join` gives for `base` and `name`: `name` appended as a
/// further component, or `name` itself when it is absolute.
pub uninterp spec fn joined(base: Seq<char>, name: Seq<char>) -> Seq<char>;

/// `Path::join`, as text.
#[verifier::external_body]
pub(crate) fn path_join(base: &str, name: &str) -> (r: String)
    ensures
        r@ == joined(base@, name@),
{
    std::path::Path::new(base).join(name).to_string_lossy().into_owned()
}

/// `p` has a parent directory.
pub fn has_parent(p: &str) -> (r: bool)
    ensures
        r == parent_of(p@) is Some,
{
    path_parent(p).is_some()
}

/// The two paths are equal as paths (`Path`'s `==`): same components.
pub fn same_path(a: &str, b: &str) -> (r: bool)
    ensures
        r == (components_of(a@) == components_of(b@)),
{
    let ca = path_components(a);
    let cb = path_components(b);
    if ca.len() != cb.len() {
        return false;
    }
    let mut i: usize = 0;
    while i < ca.len()
        invariant
            ca.len() == cb.len(),
            i <= ca.len(),
            ca.deep_view() == components_of(a@),
            cb.deep_view() == components_of(b@),
            forall|j: int| 0 <= j < i ==> ca.deep_view()[j] == cb.deep_view()[j],
        decreases ca.len() - i,
    {
        if ca[i] != cb[i] {
            assert(ca.deep_view()[i as int] != cb.deep_view()[i as int]);
            return false;
        }
        i = i + 1;
    }
    assert(ca.deep_view() =~= cb.deep_view());
    true
}

} // verus!
