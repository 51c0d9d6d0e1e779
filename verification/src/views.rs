//! Views that several modules share.

use vstd::prelude::*;

verus! {

/// The view of an optional text.
pub open spec fn text_view(text: Option<String>) -> Option<Seq<char>> {
    match text {
        Some(found) => Some(found@),
        None => None,
    }
}

} // verus!
