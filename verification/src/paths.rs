//! What std says of paths, on the platform that the crate is built for.

use vstd::prelude::*;

verus! {

/// Whether std takes two paths for the same.
pub uninterp spec fn paths_equal(a: Seq<char>, b: Seq<char>) -> bool;

/// `==` of `std::path::Path`, which compares the components of two paths. The
/// answer is named; a path equals itself.
#[verifier::external_body]
pub(crate) fn path_eq(a: &str, b: &str) -> (r: bool)
    ensures
        r == paths_equal(a@, b@),
        a@ == b@ ==> r,
{
    std::path::Path::new(a) == std::path::Path::new(b)
}

/// Whether std takes a path for absolute.
pub uninterp spec fn path_absolute(path: Seq<char>) -> bool;

/// `std::path::Path::is_absolute`. The answer is named.
#[verifier::external_body]
pub(crate) fn path_is_absolute(path: &str) -> (r: bool)
    ensures
        r == path_absolute(path@),
{
    std::path::Path::new(path).is_absolute()
}

/// The number of components that std finds in a path.
pub uninterp spec fn path_components(path: Seq<char>) -> usize;

/// The number of items of `std::path::Path::components`. The number is named.
#[verifier::external_body]
pub(crate) fn path_component_count(path: &str) -> (r: usize)
    ensures
        r == path_components(path@),
{
    std::path::Path::new(path).components().count()
}

/// What std makes of a directory and a path within it.
pub uninterp spec fn path_joined(directory: Seq<char>, path: Seq<char>) -> Seq<char>;

/// `std::path::Path::join`. Both arguments are text, so the result is too. It
/// is named.
#[verifier::external_body]
pub(crate) fn path_join(directory: &str, path: &str) -> (r: String)
    ensures
        r@ == path_joined(directory@, path@),
{
    std::path::Path::new(directory).join(path).to_string_lossy().into_owned()
}

} // verus!
