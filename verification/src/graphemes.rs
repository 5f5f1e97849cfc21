//! Extended grapheme clusters, as the `unicode-segmentation` crate finds them.

use unicode_segmentation::UnicodeSegmentation;
use vstd::prelude::*;

use crate::chars::string_views;

verus! {

/// The extended grapheme clusters of `text` (Unicode Standard Annex #29), as
/// `UnicodeSegmentation::graphemes(text, true)` yields them.
pub uninterp spec fn extended_grapheme_clusters(text: Seq<char>) -> Seq<Seq<char>>;

/// `UnicodeSegmentation::graphemes(text, true)`, collected into owned strings.
///
/// Trusted: the clusters are what the crate yields for `text`; its iterator
/// hands out consecutive slices `text[start..next]` with `next > start`, ending
/// at the end of `text`, so the clusters are non-empty and concatenate back to
/// `text`. Where the boundaries fall is not stated beyond that.
#[verifier::external_body]
pub(crate) fn graphemes(text: &str) -> (clusters: Vec<String>)
    ensures
        string_views(clusters@) == extended_grapheme_clusters(text@),
        string_views(clusters@).flatten() == text@,
        forall|i: int| 0 <= i < clusters@.len() ==> (#[trigger] clusters@[i])@.len() > 0,
{
    text.graphemes(true).map(|cluster| cluster.to_string()).collect()
}

} // verus!
