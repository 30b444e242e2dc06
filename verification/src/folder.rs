//! The folder that an addon is installed in.

use crate::text::opt_text;
use vstd::prelude::*;

verus! {

/// The name of the last component of the path `path`, as the standard
/// library's `Path::file_name` finds it on the platform the crate is built
/// for; `None` where the path has no such component, as one that is
/// empty, is a root, or ends in `..`.
pub uninterp spec fn folder_name(path: Seq<char>) -> Option<Seq<char>>;

/// Calls `std::path::Path::file_name` on `path`. Nothing is proved of the
/// call: its result is taken to be `folder_name` of the path, that is a
/// function of the path's text alone. A component of a path that is a
/// string is a string again, so the conversion back loses nothing.
#[verifier::external_body]
pub(crate) fn folder_name_of(path: &str) -> (r: Option<String>)
    ensures
        opt_text(r) == folder_name(path@),
{
    std::path::Path::new(path).file_name().map(|name| name.to_string_lossy().into_owned())
}

} // verus!
