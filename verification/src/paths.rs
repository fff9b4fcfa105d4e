//! Filesystem paths as strings, and the two questions the library asks the
//! filesystem about them.

use std::path::Path;

use vstd::prelude::*;

verus! {

/// The path std's `Path::join` builds from `base` and `name` (a relative
/// `name` is appended after a separator; an absolute one replaces `base`).
pub uninterp spec fn path_joined(base: Seq<char>, name: Seq<char>) -> Seq<char>;

/// Joins `name` onto `base` with std's `Path::join`. Claimed: the result is
/// `path_joined` of the two, a function of them alone.
#[verifier::external_body]
pub(crate) fn join_path(base: &str, name: &str) -> (r: String)
    ensures
        r@ == path_joined(base@, name@),
{
    Path::new(base).join(name).to_string_lossy().into_owned()
}

/// Asks the filesystem, through std's `Path::exists`, whether `path` names
/// an existing entry. Nothing is claimed about the answer: it depends on the
/// disk at the moment of the call.
#[verifier::external_body]
pub(crate) fn path_exists(path: &str) -> (r: bool) {
    Path::new(path).exists()
}

} // verus!
