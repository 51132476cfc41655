//! Trusted interface to `std::path` for paths held as UTF-8 strings.
//!
//! The library keeps paths as `String`s; every operation that needs the
//! platform's path grammar goes through one of the `std::path` functions
//! below.  Their results are named, not restated: the names only claim that
//! equal inputs give equal results.

use std::path::{Component, Path, PathBuf};
use vstd::prelude::*;

verus! {

/// One component of a path, as `std::path::Component` yields it.
#[derive(Debug, Clone, PartialEq, Eq)]
pub enum PathComponent {
    Prefix,
    RootDir,
    CurDir,
    ParentDir,
    Normal(String),
}

/// The components that `Path::components` yields for a path.
pub uninterp spec fn std_path_components(p: Seq<char>) -> Seq<PathComponent>;

/// The path that `PathBuf::push` makes of a base path and a pushed part.
pub uninterp spec fn std_path_push(base: Seq<char>, part: Seq<char>) -> Seq<char>;

/// What `Path::strip_prefix` leaves of a path once a base is stripped off.
pub uninterp spec fn std_path_strip_prefix(p: Seq<char>, base: Seq<char>) -> Option<Seq<char>>;

/// The path that `Path::join` makes of a base path and a joined part.
pub uninterp spec fn std_path_join(base: Seq<char>, part: Seq<char>) -> Seq<char>;

/// The parent that `Path::parent` gives of a path.
pub uninterp spec fn std_path_parent(p: Seq<char>) -> Option<Seq<char>>;

/// The final component that `Path::file_name` gives of a path.
pub uninterp spec fn std_path_file_name(p: Seq<char>) -> Option<Seq<char>>;

/// A name that a path reads as one plain component wherever it stands
/// after the start: not empty, not "." or "..", and holding no separator
/// ('/' or '\\') and no drive colon.
pub open spec fn plain_name(n: Seq<char>) -> bool {
    &&& n.len() > 0
    &&& n != "."@
    &&& n != ".."@
    &&& forall|i: int| 0 <= i < n.len() ==> n[i] != '/' && n[i] != '\\' && n[i] != ':'
}

/// `cs` is the root followed by one plain component for each name, in order.
pub open spec fn rooted_names(cs: Seq<PathComponent>, names: Seq<Seq<char>>) -> bool {
    &&& cs.len() == names.len() + 1
    &&& cs[0] is RootDir
    &&& forall|i: int| 1 <= i < cs.len() ==> (#[trigger] cs[i] matches PathComponent::Normal(n) && n@ == names[i - 1])
}

/// `Path::components`, each component converted to a `PathComponent`; the
/// root path reads as the root alone.
#[verifier::external_body]
pub(crate) fn path_components(p: &str) -> (r: Vec<PathComponent>)
    ensures
        r@ == std_path_components(p@),
        p@ == "/"@ ==> rooted_names(r@, Seq::empty()),
{
    let mut out = Vec::new();
    for c in Path::new(p).components() {
        out.push(match c {
            Component::Prefix(_) => PathComponent::Prefix,
            Component::RootDir => PathComponent::RootDir,
            Component::CurDir => PathComponent::CurDir,
            Component::ParentDir => PathComponent::ParentDir,
            Component::Normal(s) => PathComponent::Normal(s.to_string_lossy().into_owned()),
        });
    }
    out
}

/// `PathBuf::push` on a copy of `base`.  Pushing a plain name onto the
/// root, or onto a path that reads as the root and plain names, gives a
/// path that reads as the same with the name added at the end.
#[verifier::external_body]
pub(crate) fn path_push(base: &str, part: &str) -> (r: String)
    ensures
        r@ == std_path_push(base@, part@),
        plain_name(part@) && base@ == "/"@ ==> rooted_names(std_path_components(r@), seq![part@]),
        forall|ns: Seq<Seq<char>>|
            plain_name(part@) && #[trigger] rooted_names(std_path_components(base@), ns)
                ==> rooted_names(std_path_components(r@), ns.push(part@)),
{
    let mut p = PathBuf::from(base);
    p.push(part);
    p.to_string_lossy().into_owned()
}

/// `Path::strip_prefix`.
#[verifier::external_body]
pub(crate) fn path_strip_prefix(p: &str, base: &str) -> (r: Option<String>)
    ensures
        r.is_some() == std_path_strip_prefix(p@, base@).is_some(),
        r.is_some() ==> r.unwrap()@ == std_path_strip_prefix(p@, base@).unwrap(),
{
    match Path::new(p).strip_prefix(base) {
        Ok(rest) => Some(rest.to_string_lossy().into_owned()),
        Err(_) => None,
    }
}

/// `Path::join`.
#[verifier::external_body]
pub(crate) fn path_join(base: &str, part: &str) -> (r: String)
    ensures
        r@ == std_path_join(base@, part@),
{
    Path::new(base).join(part).to_string_lossy().into_owned()
}

/// `Path::parent`.
#[verifier::external_body]
pub(crate) fn path_parent(p: &str) -> (r: Option<String>)
    ensures
        r.is_some() == std_path_parent(p@).is_some(),
        r.is_some() ==> r.unwrap()@ == std_path_parent(p@).unwrap(),
{
    Path::new(p).parent().map(|q| q.to_string_lossy().into_owned())
}

/// `Path::file_name`.
#[verifier::external_body]
pub(crate) fn path_file_name(p: &str) -> (r: Option<String>)
    ensures
        r.is_some() == std_path_file_name(p@).is_some(),
        r.is_some() ==> r.unwrap()@ == std_path_file_name(p@).unwrap(),
{
    Path::new(p).file_name().map(|q| q.to_string_lossy().into_owned())
}

} // verus!
