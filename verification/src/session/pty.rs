//! PTY slave names.

use vstd::prelude::*;

verus! {

/// The slave path as a session reports it. A path built from a UTF-8 string
/// reads back as that same string, so the text is kept as it is.
pub fn normalize_pts_path(path: String) -> (r: String)
    ensures
        r@ == path@,
{
    path
}

} // verus!
