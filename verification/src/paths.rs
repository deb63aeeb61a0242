//! Paths as texts, worked on by `std::path`. What `std::path` makes of a
//! path is a function of the path's text; the contracts here give each
//! outcome its name.

use vstd::prelude::*;

verus! {

/// The parent of the path `path` as `std::path` reads it: the path without
/// its last component, `None` where there is no such component.
pub uninterp spec fn parent_path(path: Seq<char>) -> Option<Seq<char>>;

/// The rest of the path `path` behind the path `base` as `std::path` reads
/// the two, `None` where `path` does not start with `base`.
pub uninterp spec fn stripped_path(path: Seq<char>, base: Seq<char>) -> Option<Seq<char>>;

/// The path `base` with the path `child` put behind it by `std::path`.
pub uninterp spec fn joined_path(base: Seq<char>, child: Seq<char>) -> Seq<char>;

/// `std::path::Path::parent`. The contract gives the outcome its name,
/// `parent_path`, and states of it that the empty path has no parent.
#[verifier::external_body]
pub(crate) fn parent_of(path: &str) -> (r: Option<String>)
    ensures
        match r {
            Some(parent) => parent_path(path@) == Some(parent@),
            None => parent_path(path@) is None,
        },
        path@.len() == 0 ==> r is None,
{
    match std::path::Path::new(path).parent() {
        Some(parent) => parent.to_str().map(|s| s.to_string()),
        None => None,
    }
}

/// `std::path::Path::strip_prefix`, `None` for its error. The contract only
/// gives the outcome its name, `stripped_path`.
#[verifier::external_body]
pub(crate) fn relative_to(path: &str, base: &str) -> (r: Option<String>)
    ensures
        match r {
            Some(rest) => stripped_path(path@, base@) == Some(rest@),
            None => stripped_path(path@, base@) is None,
        },
{
    match std::path::Path::new(path).strip_prefix(base) {
        Ok(rest) => rest.to_str().map(|s| s.to_string()),
        Err(_) => None,
    }
}

/// `std::path::Path::join`. The contract only gives the outcome its name,
/// `joined_path`.
#[verifier::external_body]
pub(crate) fn joined(base: &str, child: &str) -> (r: String)
    ensures
        r@ == joined_path(base@, child@),
{
    std::path::Path::new(base).join(child).to_string_lossy().into_owned()
}

} // verus!
