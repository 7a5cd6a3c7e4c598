//! Grapheme segmentation, consumed as a library capability.
use vstd::prelude::*;

use unicode_segmentation::UnicodeSegmentation;

verus! {

/// Relies on unicode_segmentation's `graphemes`: how many characters the
/// first extended grapheme cluster of `s` spans.  Segmentation is a
/// function of the characters alone; the clusters of a string partition
/// it, so a non-empty string opens with a cluster of at least one and at
/// most all of its characters, and an empty string has none.
#[verifier::external_body]
pub(crate) fn first_grapheme_len(s: &str) -> (n: usize)
    ensures
        n as int == crate::model::grapheme_prefix_len(s@),
        s@.len() == 0 ==> n == 0,
        s@.len() > 0 ==> 1 <= n as int <= s@.len(),
{
    match s.graphemes(true).next() {
        Some(g) => g.chars().count(),
        None => 0,
    }
}

} // verus!
