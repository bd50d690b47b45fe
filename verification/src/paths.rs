//! Joining paths, which are held as text.

use vstd::prelude::*;

verus! {

/// The text of the path that `std::path::Path::join` makes of the path
/// `base` and the path `child`, on the platform that the library is built
/// for. Joining looks at the two texts alone, never at the file system; which
/// separator it puts between them, and when `child` takes the place of
/// `base`, is the platform's matter.
pub uninterp spec fn joined_path(base: Seq<char>, child: Seq<char>) -> Seq<char>;

/// Joins `child` onto the path `base` with `std::path::Path::join` and hands
/// the result back as text. The claim is that the result is `joined_path` of
/// the two texts, that is, that joining depends on nothing but them.
#[verifier::external_body]
pub(crate) fn join_path(base: &str, child: &str) -> (joined: String)
    ensures
        joined@ == joined_path(base@, child@),
{
    std::path::Path::new(base).join(child).to_string_lossy().into_owned()
}

} // verus!
