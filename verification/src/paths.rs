//! Path components, as `std::path::Path` computes them.

use vstd::prelude::*;
use crate::models::opt_text;

verus! {

/// The path without its final component, as `Path::parent` gives it.
pub uninterp spec fn parent_of(path: Seq<char>) -> Option<Seq<char>>;

/// The final component of a path without its extension, as
/// `Path::file_stem` gives it.
pub uninterp spec fn file_stem_of(path: Seq<char>) -> Option<Seq<char>>;

/// Whether two paths are equal as `Path`s, comparing them component by
/// component (so `a//b` equals `a/b`).
pub uninterp spec fn path_eq_of(a: Seq<char>, b: Seq<char>) -> bool;

/// Compares `a` and `b` with `Path`'s `==`. The contract only names the
/// result: how the standard library splits paths into components is left
/// unsaid.
#[verifier::external_body]
pub(crate) fn same_path(a: &str, b: &str) -> (res: bool)
    ensures
        res == path_eq_of(a@, b@),
{
    std::path::Path::new(a) == std::path::Path::new(b)
}

/// The extension of a path's final component, as `Path::extension` gives
/// it.
pub uninterp spec fn extension_of(path: Seq<char>) -> Option<Seq<char>>;

/// Calls `Path::extension` on `path`. The contract only names the result:
/// how the standard library finds the final component and its extension
/// is left unsaid.
#[verifier::external_body]
pub(crate) fn path_extension(path: &str) -> (res: Option<String>)
    ensures
        opt_text(res) == extension_of(path@),
{
    match std::path::Path::new(path).extension() {
        Some(e) => Some(e.to_string_lossy().into_owned()),
        None => None,
    }
}

/// The format hint for a media file: the extension of its path, if any.
pub fn extension_hint(path: &str) -> (res: Option<String>)
    ensures
        opt_text(res) == extension_of(path@),
{
    path_extension(path)
}

/// Calls `Path::parent` on `path`. The contract only names the result:
/// how the standard library splits a path into components is left unsaid.
#[verifier::external_body]
pub(crate) fn path_parent(path: &str) -> (res: Option<String>)
    ensures
        opt_text(res) == parent_of(path@),
{
    match std::path::Path::new(path).parent() {
        Some(p) => Some(p.to_string_lossy().into_owned()),
        None => None,
    }
}

/// Calls `Path::file_stem` on `path`. The contract only names the result:
/// how the standard library finds the final component and its extension
/// is left unsaid.
#[verifier::external_body]
pub(crate) fn path_file_stem(path: &str) -> (res: Option<String>)
    ensures
        opt_text(res) == file_stem_of(path@),
{
    match std::path::Path::new(path).file_stem() {
        Some(s) => Some(s.to_string_lossy().into_owned()),
        None => None,
    }
}

} // verus!
