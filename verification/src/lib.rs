//! A terminal note editor core: a modal (vim-style) command interpreter over a
//! multi-line text buffer, note-to-note link annotations anchored at live text
//! positions, and a transactional save-time synchronization of those links
//! against persisted rows.

pub mod anchors;
pub mod buffer;
pub mod editor;
pub mod events;
pub mod input;
pub mod links;
pub mod text;
pub mod ui;
pub mod words;

use vstd::prelude::*;

verus! {

/// Value of a buffered digit sequence read as a base-10 number, first digit
/// most significant.
pub open spec fn digits_value(digits: Seq<u32>) -> int
    decreases digits.len(),
{
    if digits.len() == 0 {
        0
    } else {
        digits_value(digits.drop_last()) * 10 + digits.last()
    }
}

/// A digit buffer's value is never negative.
pub proof fn lemma_digits_value_nonneg(digits: Seq<u32>)
    ensures
        digits_value(digits) >= 0,
    decreases digits.len(),
{
    if digits.len() > 0 {
        lemma_digits_value_nonneg(digits.drop_last());
    }
}

} // verus!
