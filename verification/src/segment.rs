//! Splitting a text into user-perceived characters.

use unicode_segmentation::UnicodeSegmentation;
use vstd::prelude::*;

verus! {

/// The extended grapheme clusters of `text`, in order, each as the sequence
/// of its code points. The segmentation rules are those of the Unicode
/// text-segmentation algorithm; they are not restated here.
pub uninterp spec fn grapheme_clusters(text: Seq<char>) -> Seq<Seq<char>>;

/// The code points of each cluster of a list of clusters.
pub open spec fn cluster_seqs(clusters: Seq<Vec<char>>) -> Seq<Seq<char>> {
    clusters.map_values(|c: Vec<char>| c@)
}

/// The clusters put one after the other.
pub open spec fn joined(clusters: Seq<Seq<char>>) -> Seq<char>
    decreases clusters.len(),
{
    if clusters.len() == 0 {
        Seq::empty()
    } else {
        joined(clusters.drop_last()) + clusters.last()
    }
}

/// The clusters cut the text into pieces: none of them is empty, and in
/// order they make up the text.
pub open spec fn cuts(text: Seq<char>, clusters: Seq<Seq<char>>) -> bool {
    &&& forall|i: int| 0 <= i < clusters.len() ==> (#[trigger] clusters[i]).len() > 0
    &&& joined(clusters) == text
}

/// Calls `UnicodeSegmentation::graphemes` of the crate unicode-segmentation
/// in extended mode, and hands each cluster out as its code points.
///
/// Trusted: what comes back is `grapheme_clusters` of the text, that is, the
/// segmentation depends on the text alone; and the clusters are consecutive
/// non-empty slices of the text that cover it from its start to its end.
#[verifier::external_body]
pub(crate) fn split_clusters(text: &str) -> (clusters: Vec<Vec<char>>)
    ensures
        cluster_seqs(clusters@) == grapheme_clusters(text@),
        cuts(text@, cluster_seqs(clusters@)),
{
    UnicodeSegmentation::graphemes(text, true).map(|cluster| cluster.chars().collect()).collect()
}

} // verus!
