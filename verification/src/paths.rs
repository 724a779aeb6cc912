//! What `std::path` computes on the paths the library handles, which are
//! held as strings: each operation is named here and called through a
//! small wrapper.

use vstd::prelude::*;

verus! {

/// `Path::set_extension`: the path with its extension replaced (or added).
pub uninterp spec fn path_with_extension(path: Seq<char>, ext: Seq<char>) -> Seq<char>;

/// `Path::file_stem`: the final component without its extension, if there is one.
pub uninterp spec fn path_file_stem(path: Seq<char>) -> Option<Seq<char>>;

/// `Path::with_file_name`: the path with its final component replaced.
pub uninterp spec fn path_with_file_name(path: Seq<char>, name: Seq<char>) -> Seq<char>;

/// `Path::is_relative`.
pub uninterp spec fn path_is_relative(path: Seq<char>) -> bool;

/// `Path::strip_prefix`: the path relative to `base`, if `base` is a prefix of it.
pub uninterp spec fn path_strip_prefix(path: Seq<char>, base: Seq<char>) -> Option<Seq<char>>;

/// `PathBuf::set_extension`, which panics when the extension holds a path
/// separator.
#[verifier::external_body]
pub(crate) fn set_extension(path: &String, ext: &str) -> (r: String)
    requires
        forall|i: int| 0 <= i < ext@.len() ==> ext@[i] != '/' && ext@[i] != '\\',
    ensures
        r@ == path_with_extension(path@, ext@),
{
    let mut p = std::path::PathBuf::from(path);
    p.set_extension(ext);
    p.to_string_lossy().into_owned()
}

/// `Path::file_stem`.
#[verifier::external_body]
pub(crate) fn file_stem(path: &String) -> (r: Option<String>)
    ensures
        match r {
            Some(s) => path_file_stem(path@) == Some(s@),
            None => path_file_stem(path@) is None,
        },
{
    std::path::Path::new(path).file_stem().map(|s| s.to_string_lossy().into_owned())
}

/// `Path::with_file_name`.
#[verifier::external_body]
pub(crate) fn with_file_name(path: &String, name: &String) -> (r: String)
    ensures
        r@ == path_with_file_name(path@, name@),
{
    std::path::Path::new(path).with_file_name(name).to_string_lossy().into_owned()
}

/// `Path::is_relative`.
#[verifier::external_body]
pub(crate) fn is_relative(path: &String) -> (r: bool)
    ensures
        r == path_is_relative(path@),
{
    std::path::Path::new(path).is_relative()
}

/// `Path::strip_prefix`.
#[verifier::external_body]
pub(crate) fn strip_prefix(path: &String, base: &String) -> (r: Option<String>)
    ensures
        match r {
            Some(s) => path_strip_prefix(path@, base@) == Some(s@),
            None => path_strip_prefix(path@, base@) is None,
        },
{
    std::path::Path::new(path).strip_prefix(base).ok().map(|p| p.to_string_lossy().into_owned())
}


/// `Path::join`: `path` with `tail` appended as further components (or `tail`
/// itself when it is absolute).
pub uninterp spec fn path_join(path: Seq<char>, tail: Seq<char>) -> Seq<char>;

/// `Path::parent`: the path without its final component, if it has one.
pub uninterp spec fn path_parent(path: Seq<char>) -> Option<Seq<char>>;

/// `Path::file_name`: the final component, unless the path ends in `..` or a root.
pub uninterp spec fn path_file_name(path: Seq<char>) -> Option<Seq<char>>;

/// `Path::join`.
#[verifier::external_body]
pub(crate) fn join(path: &String, tail: &str) -> (r: String)
    ensures
        r@ == path_join(path@, tail@),
{
    std::path::Path::new(path).join(tail).to_string_lossy().into_owned()
}

/// `Path::parent`.
#[verifier::external_body]
pub(crate) fn parent(path: &String) -> (r: Option<String>)
    ensures
        match r {
            Some(s) => path_parent(path@) == Some(s@),
            None => path_parent(path@) is None,
        },
{
    std::path::Path::new(path).parent().map(|p| p.to_string_lossy().into_owned())
}

/// `Path::file_name`.
#[verifier::external_body]
pub(crate) fn file_name(path: &String) -> (r: Option<String>)
    ensures
        match r {
            Some(s) => path_file_name(path@) == Some(s@),
            None => path_file_name(path@) is None,
        },
{
    std::path::Path::new(path).file_name().map(|s| s.to_string_lossy().into_owned())
}

/// `Path::starts_with`: `base`'s components are the first components of `path`.
pub uninterp spec fn path_starts_with(path: Seq<char>, base: Seq<char>) -> bool;

/// `Path::extension`: the text after the last `.` of the final component, if any.
pub uninterp spec fn path_extension(path: Seq<char>) -> Option<Seq<char>>;

/// `Path::starts_with`.
#[verifier::external_body]
pub(crate) fn starts_with(path: &String, base: &str) -> (r: bool)
    ensures
        r == path_starts_with(path@, base@),
{
    std::path::Path::new(path).starts_with(base)
}

/// `Path::extension`.
#[verifier::external_body]
pub(crate) fn extension(path: &String) -> (r: Option<String>)
    ensures
        match r {
            Some(s) => path_extension(path@) == Some(s@),
            None => path_extension(path@) is None,
        },
{
    std::path::Path::new(path).extension().map(|s| s.to_string_lossy().into_owned())
}

} // verus!
