//! The trusted items through which the library reads file paths with
//! `std::path::Path`.  Paths are held as `String`s; what `Path` computes from
//! them is named.
use vstd::prelude::*;
use std::path::Path;

verus! {

/// Whether two paths are equal as `std::path::Path`s (component by component).
pub uninterp spec fn path_eq(a: Seq<char>, b: Seq<char>) -> bool;

/// Whether `path` starts with `base` as a `std::path::Path` (by whole components).
pub uninterp spec fn path_starts_with(path: Seq<char>, base: Seq<char>) -> bool;

/// `PartialEq` of `std::path::Path`: compares the components of the two paths.
#[verifier::external_body]
pub(crate) fn paths_equal(a: &String, b: &String) -> (eq: bool)
    ensures
        eq == path_eq(a@, b@),
{
    Path::new(a) == Path::new(b)
}

/// `Path::starts_with`: whether the components of `base` begin `path`.
#[verifier::external_body]
pub(crate) fn path_has_prefix(path: &String, base: &String) -> (starts: bool)
    ensures
        starts == path_starts_with(path@, base@),
{
    Path::new(path).starts_with(Path::new(base))
}

/// What `Path::extension` gives for this path, as text.
pub uninterp spec fn path_extension_of(path: Seq<char>) -> Option<Seq<char>>;

/// What `Path::file_name` gives for this path, as text.
pub uninterp spec fn path_file_name_of(path: Seq<char>) -> Option<Seq<char>>;

/// `Path::extension`: the extension of the file name, if it has one.  A path
/// made from a `String` is valid Unicode, so its parts convert back to text.
#[verifier::external_body]
pub(crate) fn path_extension(path: &String) -> (ext: Option<String>)
    ensures
        ext matches Some(e) ==> path_extension_of(path@) == Some(e@),
        ext is None ==> path_extension_of(path@) is None,
{
    Path::new(path).extension().map(|e| e.to_string_lossy().into_owned())
}

/// `Path::file_name`: the last component of the path, if it is a file or
/// folder name.
#[verifier::external_body]
pub(crate) fn path_file_name(path: &String) -> (name: Option<String>)
    ensures
        name matches Some(n) ==> path_file_name_of(path@) == Some(n@),
        name is None ==> path_file_name_of(path@) is None,
{
    Path::new(path).file_name().map(|n| n.to_string_lossy().into_owned())
}

} // verus!
