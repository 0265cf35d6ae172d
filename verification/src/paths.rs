//! File-system paths as the command-line logic sees them.
//!
//! Paths are carried as strings. The component-wise operations of
//! `std::path::Path` (prefix tests, joining, equality, file names) are
//! called through the items below; their results are named, since
//! `Path` parses components in ways that take pages to state.

use vstd::prelude::*;
use crate::text::replace_char;

verus! {

/// Result of `Path::strip_prefix(path, base)` rendered as a string.
pub uninterp spec fn spec_strip_prefix(path: Seq<char>, base: Seq<char>) -> Option<Seq<char>>;

/// Result of `Path::starts_with(path, base)` (component-wise).
pub uninterp spec fn spec_path_starts_with(path: Seq<char>, base: Seq<char>) -> bool;

/// Result of `Path == Path` (component-wise equality).
pub uninterp spec fn spec_path_eq(a: Seq<char>, b: Seq<char>) -> bool;

/// Result of `Path::join(base, tail)` rendered as a string.
pub uninterp spec fn spec_path_join(base: Seq<char>, tail: Seq<char>) -> Seq<char>;

/// Result of `Path::file_name` rendered as a string.
pub uninterp spec fn spec_file_name(path: Seq<char>) -> Option<Seq<char>>;

/// Result of `Path::file_stem` rendered as a string.
pub uninterp spec fn spec_file_stem(path: Seq<char>) -> Option<Seq<char>>;

/// Result of `Path::components`, each component rendered as a string.
pub uninterp spec fn spec_components(path: Seq<char>) -> Seq<Seq<char>>;

/// `std::path::Path::strip_prefix`: the part of `path` after the leading
/// components of `base`, or `None` when `base` is not a component prefix.
/// The contract only ties the result to the named value; what the named
/// value is for given strings is left to `Path`.
#[verifier::external_body]
pub(crate) fn path_strip_prefix(path: &str, base: &str) -> (r: Option<String>)
    ensures
        match r {
            Some(t) => spec_strip_prefix(path@, base@) == Some(t@),
            None => spec_strip_prefix(path@, base@) == None::<Seq<char>>,
        },
{
    std::path::Path::new(path).strip_prefix(base).ok().map(|p| p.to_string_lossy().into_owned())
}

/// `std::path::Path::starts_with`: whether `base` is a component prefix of
/// `path`. The result is named; the one fact stated is that a path starts
/// with itself (its components are a prefix of themselves).
#[verifier::external_body]
pub(crate) fn path_starts_with(path: &str, base: &str) -> (r: bool)
    ensures
        r == spec_path_starts_with(path@, base@),
        path@ == base@ ==> r,
{
    std::path::Path::new(path).starts_with(base)
}

/// `<Path as PartialEq>::eq`: component-wise equality of two paths. The
/// result is named; the one fact stated is that equal strings are equal
/// paths (`Path` is `Eq`, so its equality is reflexive).
#[verifier::external_body]
pub(crate) fn path_eq(a: &str, b: &str) -> (r: bool)
    ensures
        r == spec_path_eq(a@, b@),
        a@ == b@ ==> r,
{
    std::path::Path::new(a) == std::path::Path::new(b)
}

/// `std::path::Path::join`, rendered as a string; the result is named, not
/// stated.
#[verifier::external_body]
pub(crate) fn path_join(base: &str, tail: &str) -> (r: String)
    ensures
        r@ == spec_path_join(base@, tail@),
{
    std::path::Path::new(base).join(tail).to_string_lossy().into_owned()
}

/// `std::path::Path::file_name`, rendered as a string; the result is named,
/// not stated.
#[verifier::external_body]
pub(crate) fn path_file_name(path: &str) -> (r: Option<String>)
    ensures
        match r {
            Some(t) => spec_file_name(path@) == Some(t@),
            None => spec_file_name(path@) == None::<Seq<char>>,
        },
{
    std::path::Path::new(path).file_name().map(|f| f.to_string_lossy().into_owned())
}

/// `std::path::Path::file_stem`, rendered as a string; the result is named,
/// not stated.
#[verifier::external_body]
pub(crate) fn path_file_stem(path: &str) -> (r: Option<String>)
    ensures
        match r {
            Some(t) => spec_file_stem(path@) == Some(t@),
            None => spec_file_stem(path@) == None::<Seq<char>>,
        },
{
    std::path::Path::new(path).file_stem().map(|f| f.to_string_lossy().into_owned())
}

/// `std::path::Path::components`, each rendered as a string; the result
/// is named, not stated.
#[verifier::external_body]
pub(crate) fn path_components(path: &str) -> (r: Vec<String>)
    ensures
        r@.map_values(|c: String| c@) == spec_components(path@),
{
    std::path::Path::new(path).components().map(|c| c.as_os_str().to_string_lossy().into_owned()).collect()
}

/// A path with backslashes turned into forward slashes, as baseline keys
/// store it.
pub open spec fn forward_slashes(p: Seq<char>) -> Seq<char> {
    replace_char(p, '\\', '/')
}

/// `path` relative to `root` when `root` is a prefix of it, else `path`.
pub open spec fn relative_to(path: Seq<char>, root: Seq<char>) -> Seq<char> {
    match spec_strip_prefix(path, root) {
        Some(t) => t,
        None => path,
    }
}

/// `path` relative to `root` when possible, else `path` itself.
pub fn relative_path(path: &str, root: &str) -> (r: String)
    ensures
        r@ == relative_to(path@, root@),
{
    match path_strip_prefix(path, root) {
        Some(t) => t,
        None => path.to_string(),
    }
}

} // verus!
