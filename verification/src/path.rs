//! File-system paths held as text, and the `std::path` operations that the
//! library needs on them.
use vstd::prelude::*;

verus! {

/// What `Path::parent` gives for a path: the path without its last
/// component, if it has one.
pub uninterp spec fn path_parent(p: Seq<char>) -> Option<Seq<char>>;

/// What `Path::file_name` gives for a path: its last component, unless that
/// is `..` or there is none.
pub uninterp spec fn path_file_name(p: Seq<char>) -> Option<Seq<char>>;

/// What `==` on two `Path`s gives: they have the same components.
pub uninterp spec fn path_eq(a: Seq<char>, b: Seq<char>) -> bool;

/// Calls `std::path::Path::parent` on `p`. Claimed: the text of the result
/// is the named value [`path_parent`] of `p` (a `Path` made from a `str`
/// converts back without loss), and it is a beginning of `p`'s text (the
/// parent is a slice of the path with its last component cut off); which
/// beginning it is, is left unstated.
#[verifier::external_body]
pub(crate) fn parent_of(p: &str) -> (r: Option<String>)
    ensures
        match r {
            Some(q) => path_parent(p@) == Some(q@) && q@.len() <= p@.len() && q@ == p@.take(q@.len() as int),
            None => path_parent(p@) is None,
        },
{
    std::path::Path::new(p).parent().map(|q| q.to_string_lossy().to_string())
}

/// Calls `std::path::Path::file_name` on `p`. Claimed: the text of the
/// result is the named value [`path_file_name`] of `p`; what the name is, is
/// left unstated.
#[verifier::external_body]
pub(crate) fn file_name_of(p: &str) -> (r: Option<String>)
    ensures
        match r {
            Some(q) => path_file_name(p@) == Some(q@),
            None => path_file_name(p@) is None,
        },
{
    std::path::Path::new(p).file_name().map(|q| q.to_string_lossy().to_string())
}

/// Compares `a` and `b` with `==` on `std::path::Path`. Claimed: the result
/// is the named value [`path_eq`], and two paths with the same text are
/// equal (the comparison is by components, and equal texts have the same
/// ones).
#[verifier::external_body]
pub(crate) fn same_path(a: &str, b: &str) -> (r: bool)
    ensures
        r == path_eq(a@, b@),
        a@ == b@ ==> r,
{
    std::path::Path::new(a) == std::path::Path::new(b)
}

} // verus!
