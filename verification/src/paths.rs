//! The std path operations the library relies on, over paths held as
//! text. Their results are named after their arguments alone.

use vstd::prelude::*;

verus! {

/// `Path::with_extension`: the path with its file name's extension
/// replaced (or added).
pub uninterp spec fn path_with_extension(path: Seq<char>, ext: Seq<char>) -> Seq<char>;

/// `PathBuf::from(path).with_extension(ext)`, as text (a path made from
/// text stays valid UTF-8, so the conversion back loses nothing). Recent
/// std panics on an extension holding a path separator, so `ext` has none.
#[verifier::external_body]
pub(crate) fn with_extension(path: &str, ext: &str) -> (r: String)
    requires
        !ext@.contains('/'),
    ensures
        r@ == path_with_extension(path@, ext@),
{
    std::path::PathBuf::from(path).with_extension(ext).to_string_lossy().into_owned()
}

/// `Path::parent`: the path without its last component; `None` for a root
/// or an empty path.
pub uninterp spec fn path_parent(path: Seq<char>) -> Option<Seq<char>>;

/// `Path::new(path).parent()`, as text.
#[verifier::external_body]
pub(crate) fn parent(path: &str) -> (r: Option<String>)
    ensures
        match r {
            Some(p) => path_parent(path@) == Some(p@),
            None => path_parent(path@) is None,
        },
{
    std::path::Path::new(path).parent().map(|p| p.to_string_lossy().into_owned())
}

/// `Path::eq`: equality of the paths' components (so `a//b` equals
/// `a/b`).
pub uninterp spec fn path_eq(a: Seq<char>, b: Seq<char>) -> bool;

/// `Path::new(a) == Path::new(b)`. Equal texts make equal paths.
#[verifier::external_body]
pub(crate) fn same_path(a: &str, b: &str) -> (r: bool)
    ensures
        r == path_eq(a@, b@),
        a@ == b@ ==> r,
{
    std::path::Path::new(a) == std::path::Path::new(b)
}

/// `Path::join`: `rel` appended as a further component (an absolute
/// `rel` replaces the base).
pub uninterp spec fn path_join(base: Seq<char>, rel: Seq<char>) -> Seq<char>;

/// `Path::new(base).join(rel)`, as text.
#[verifier::external_body]
pub(crate) fn join(base: &str, rel: &str) -> (r: String)
    ensures
        r@ == path_join(base@, rel@),
{
    std::path::Path::new(base).join(rel).to_string_lossy().into_owned()
}

} // verus!
