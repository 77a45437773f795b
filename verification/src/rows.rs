//! How many terminal rows a text occupies when it is wrapped at a width.
//!
//! A text is read cluster by cluster. A carriage return or a byte-order mark
//! takes no room. A line feed ends the row. Any other cluster takes one
//! column; the cluster that no longer fits starts the next row.

use crate::segment::{cluster_seqs, cuts, grapheme_clusters, joined, split_clusters};
use vstd::arithmetic::div_mod::lemma_fundamental_div_mod;
use vstd::arithmetic::div_mod::lemma_fundamental_div_mod_converse;
use vstd::prelude::*;

verus! {

/// A cluster that takes no room on the row: a lone carriage return or a
/// byte-order mark.
pub open spec fn is_zero_width(cluster: Seq<char>) -> bool {
    cluster.len() == 1 && (cluster[0] == '\r' || cluster[0] == '\u{FEFF}')
}

/// A cluster that ends the row: a lone line feed.
pub open spec fn is_newline(cluster: Seq<char>) -> bool {
    cluster.len() == 1 && cluster[0] == '\n'
}

/// Where the scan of a text stands: the rows that were closed so far and the
/// columns used on the open row.
pub struct Cursor {
    pub rows: nat,
    pub col: nat,
}

/// The cursor after one more cluster, on a terminal `width` columns wide.
pub open spec fn advance(at: Cursor, cluster: Seq<char>, width: nat) -> Cursor {
    if is_zero_width(cluster) {
        at
    } else if is_newline(cluster) {
        Cursor { rows: at.rows + 1, col: 0 }
    } else if at.col + 1 > width {
        Cursor { rows: at.rows + 1, col: 1 }
    } else {
        Cursor { rows: at.rows, col: at.col + 1 }
    }
}

/// The cursor after all of `clusters`, starting at the top left.
pub open spec fn scan(clusters: Seq<Seq<char>>, width: nat) -> Cursor
    decreases clusters.len(),
{
    if clusters.len() == 0 {
        Cursor { rows: 0, col: 0 }
    } else {
        advance(scan(clusters.drop_last(), width), clusters.last(), width)
    }
}

/// The rows that the clusters of a non-empty text occupy: those closed
/// during the scan and the one that is still open at its end.
pub open spec fn cluster_rows(clusters: Seq<Seq<char>>, width: nat) -> nat {
    scan(clusters, width).rows + 1
}

/// The rows that `text` occupies at `width` columns. The empty text occupies
/// none.
pub open spec fn text_rows(text: Seq<char>, width: nat) -> nat {
    if text.len() == 0 {
        0
    } else {
        cluster_rows(grapheme_clusters(text), width)
    }
}

/// A cluster that takes one column: neither zero-width nor a line feed.
pub open spec fn is_plain(cluster: Seq<char>) -> bool {
    !is_zero_width(cluster) && !is_newline(cluster)
}

/// Every cluster is plain.
pub open spec fn all_plain(clusters: Seq<Seq<char>>) -> bool {
    forall|i: int| 0 <= i < clusters.len() ==> is_plain(#[trigger] clusters[i])
}

fn is_zero_width_cluster(cluster: &Vec<char>) -> (b: bool)
    ensures
        b == is_zero_width(cluster@),
{
    cluster.len() == 1 && (cluster[0] == '\r' || cluster[0] == '\u{FEFF}')
}

fn is_newline_cluster(cluster: &Vec<char>) -> (b: bool)
    ensures
        b == is_newline(cluster@),
{
    cluster.len() == 1 && cluster[0] == '\n'
}

/// The closed rows never decrease while the scan goes on.
proof fn lemma_scan_rows_grow(clusters: Seq<Seq<char>>, width: nat, k: int)
    requires
        0 <= k <= clusters.len(),
    ensures
        scan(clusters.take(k), width).rows <= scan(clusters, width).rows,
    decreases clusters.len(),
{
    if k == clusters.len() {
        assert(clusters.take(k) =~= clusters);
    } else {
        lemma_scan_rows_grow(clusters.drop_last(), width, k);
        assert(clusters.drop_last().take(k) =~= clusters.take(k));
    }
}

/// Counts the rows that a non-empty text with these clusters occupies at
/// `max_width` columns. `None` says that the count does not fit in `u16`.
pub fn count_cluster_rows(clusters: &Vec<Vec<char>>, max_width: usize) -> (rows: Option<u16>)
    ensures
        rows.is_some() == (cluster_rows(cluster_seqs(clusters@), max_width as nat) <= u16::MAX),
        rows.is_some() ==> rows.unwrap() as nat == cluster_rows(
            cluster_seqs(clusters@),
            max_width as nat,
        ),
{
    let ghost all = cluster_seqs(clusters@);
    let ghost width = max_width as nat;
    let mut line_count: u16 = 0;
    let mut current_line_width: usize = 0;
    let mut i: usize = 0;
    while i < clusters.len()
        invariant
            i <= clusters.len(),
            all == cluster_seqs(clusters@),
            width == max_width as nat,
            scan(all.take(i as int), width) == (Cursor {
                rows: line_count as nat,
                col: current_line_width as nat,
            }),
            line_count < u16::MAX,
        decreases clusters.len() - i,
    {
        let cluster = &clusters[i];
        proof {
            assert(all.take(i + 1).drop_last() =~= all.take(i as int));
            assert(all.take(i + 1).last() == cluster@);
        }
        if is_zero_width_cluster(cluster) {
        } else if is_newline_cluster(cluster) || current_line_width >= max_width {
            if line_count == u16::MAX - 1 {
                proof {
                    lemma_scan_rows_grow(all, width, i + 1);
                }
                return None;
            }
            line_count = line_count + 1;
            current_line_width = if is_newline_cluster(cluster) {
                0
            } else {
                1
            };
        } else {
            current_line_width = current_line_width + 1;
        }
        i = i + 1;
    }
    proof {
        assert(all.take(i as int) =~= all);
    }
    Some(line_count + 1)
}

/// The text holds no line feed, no carriage return and no byte-order mark.
pub open spec fn is_unbroken(text: Seq<char>) -> bool {
    forall|k: int|
        0 <= k < text.len() ==> (#[trigger] text[k]) != '\n' && text[k] != '\r' && text[k]
            != '\u{FEFF}'
}

/// The rows that `n` clusters of one column each fill at `width` columns:
/// `n / width`, and one more where `width` does not divide `n`.
pub open spec fn unbroken_rows(n: nat, width: nat) -> nat {
    if n % width != 0 {
        n / width + 1
    } else {
        n / width
    }
}

/// Every code point of every cluster occurs in the clusters' joined text.
proof fn lemma_joined_holds_each(clusters: Seq<Seq<char>>, i: int, j: int)
    requires
        0 <= i < clusters.len(),
        0 <= j < clusters[i].len(),
    ensures
        joined(clusters).contains(clusters[i][j]),
    decreases clusters.len(),
{
    let front = clusters.drop_last();
    if i == clusters.len() - 1 {
        assert(joined(clusters)[joined(front).len() + j] == clusters[i][j]);
    } else {
        lemma_joined_holds_each(front, i, j);
        let k = choose|k: int| 0 <= k < joined(front).len() && joined(front)[k] == front[i][j];
        assert(joined(clusters)[k] == clusters[i][j]);
    }
}

/// The clusters of an unbroken text take one column each.
proof fn lemma_unbroken_clusters_plain(text: Seq<char>, clusters: Seq<Seq<char>>)
    requires
        cuts(text, clusters),
        is_unbroken(text),
    ensures
        all_plain(clusters),
{
    assert forall|i: int| 0 <= i < clusters.len() implies is_plain(#[trigger] clusters[i]) by {
        assert(clusters[i].len() > 0);
        lemma_joined_holds_each(clusters, i, 0);
        let k = choose|k: int| 0 <= k < text.len() && text[k] == clusters[i][0];
        assert(text[k] != '\n' && text[k] != '\r' && text[k] != '\u{FEFF}');
    }
}

/// Clusters of which none is empty are no more than the code points of
/// their joined text.
proof fn lemma_joined_len(clusters: Seq<Seq<char>>)
    requires
        forall|i: int| 0 <= i < clusters.len() ==> (#[trigger] clusters[i]).len() > 0,
    ensures
        joined(clusters).len() >= clusters.len(),
    decreases clusters.len(),
{
    if clusters.len() > 0 {
        let front = clusters.drop_last();
        assert forall|i: int| 0 <= i < front.len() implies (#[trigger] front[i]).len() > 0 by {
            assert(front[i] == clusters[i]);
        }
        lemma_joined_len(front);
        assert(clusters[clusters.len() - 1].len() > 0);
    }
}

/// A scan closes at most one row for each cluster.
proof fn lemma_scan_rows_bound(clusters: Seq<Seq<char>>, width: nat)
    ensures
        scan(clusters, width).rows <= clusters.len(),
    decreases clusters.len(),
{
    if clusters.len() > 0 {
        lemma_scan_rows_bound(clusters.drop_last(), width);
    }
}

/// What the cutting of a text into clusters says of its rows: an unbroken
/// text fills the rows that its number of clusters asks for, and no text
/// takes more rows than it has code points and one.
pub proof fn lemma_rows_of_cut_text(text: Seq<char>, clusters: Seq<Seq<char>>, width: nat)
    requires
        cuts(text, clusters),
        text.len() > 0,
    ensures
        clusters.len() >= 1,
        cluster_rows(clusters, width) <= text.len() + 1,
        is_unbroken(text) && width >= 1 ==> cluster_rows(clusters, width) == unbroken_rows(
            clusters.len(),
            width,
        ),
{
    lemma_joined_len(clusters);
    lemma_scan_rows_bound(clusters, width);
    if is_unbroken(text) && width >= 1 {
        lemma_unbroken_clusters_plain(text, clusters);
        lemma_unbroken_text_rows(clusters, width);
    }
}

/// The number of terminal rows that `text` occupies when it is wrapped at
/// `max_width` columns.
///
/// A text without line feeds, carriage returns and byte-order marks fills
/// the rows that its number of clusters asks for. No text takes more rows
/// than it has code points and one.
pub fn count_lines(text: &str, max_width: usize) -> (rows: u16)
    requires
        text_rows(text@, max_width as nat) <= u16::MAX,
    ensures
        rows as nat == text_rows(text@, max_width as nat),
        text@.len() == 0 ==> rows == 0,
        text@.len() > 0 ==> rows >= 1,
        text@.len() > 0 ==> rows <= text@.len() + 1,
        text@.len() > 0 && is_unbroken(text@) && max_width >= 1 ==> rows as nat == unbroken_rows(
            grapheme_clusters(text@).len(),
            max_width as nat,
        ),
{
    if text.is_empty() {
        return 0;
    }
    let clusters = split_clusters(text);
    proof {
        lemma_rows_of_cut_text(text@, cluster_seqs(clusters@), max_width as nat);
    }
    count_cluster_rows(&clusters, max_width).unwrap()
}

/// As `count_lines`, for any text: `None` says that the count does not fit
/// in `u16`, which no text of fewer than `u16::MAX` code points brings
/// about.
pub fn checked_count_lines(text: &str, max_width: usize) -> (rows: Option<u16>)
    ensures
        rows.is_some() == (text_rows(text@, max_width as nat) <= u16::MAX),
        rows.is_some() ==> rows.unwrap() as nat == text_rows(text@, max_width as nat),
        text@.len() < u16::MAX ==> rows.is_some(),
        rows.is_some() && text@.len() > 0 && is_unbroken(text@) && max_width >= 1
            ==> rows.unwrap() as nat == unbroken_rows(
            grapheme_clusters(text@).len(),
            max_width as nat,
        ),
{
    if text.is_empty() {
        return Some(0);
    }
    let clusters = split_clusters(text);
    proof {
        lemma_rows_of_cut_text(text@, cluster_seqs(clusters@), max_width as nat);
    }
    if count_cluster_rows(&clusters, max_width).is_some() {
        Some(count_lines(text, max_width))
    } else {
        None
    }
}

/// One step of a count: where `a + 1` lands relative to the multiples of `w`.
proof fn lemma_next_column(a: int, w: int)
    requires
        0 <= a,
        1 <= w,
    ensures
        a % w == w - 1 ==> (a + 1) / w == a / w + 1 && (a + 1) % w == 0,
        a % w != w - 1 ==> (a + 1) / w == a / w && (a + 1) % w == a % w + 1,
{
    lemma_fundamental_div_mod(a, w);
    let q = a / w;
    let r = a % w;
    if r == w - 1 {
        assert(a + 1 == (q + 1) * w + 0) by (nonlinear_arith)
            requires
                a == w * q + r,
                r == w - 1,
        ;
        lemma_fundamental_div_mod_converse(a + 1, w, q + 1, 0);
    } else {
        assert(a + 1 == q * w + (r + 1)) by (nonlinear_arith)
            requires
                a == w * q + r,
        ;
        lemma_fundamental_div_mod_converse(a + 1, w, q, r + 1);
    }
}

/// Where the scan of plain clusters stands after at least one of them.
proof fn lemma_scan_plain(clusters: Seq<Seq<char>>, width: nat)
    requires
        clusters.len() >= 1,
        width >= 1,
        all_plain(clusters),
    ensures
        scan(clusters, width).rows == (clusters.len() - 1) / (width as int),
        scan(clusters, width).col == (clusters.len() - 1) % (width as int) + 1,
    decreases clusters.len(),
{
    let before = clusters.drop_last();
    assert(is_plain(clusters[clusters.len() - 1]));
    if clusters.len() == 1 {
        assert(scan(before, width) == Cursor { rows: 0, col: 0 });
        lemma_fundamental_div_mod_converse(0, width as int, 0, 0);
    } else {
        assert(all_plain(before)) by {
            assert forall|i: int| 0 <= i < before.len() implies is_plain(#[trigger] before[i]) by {
                assert(before[i] == clusters[i]);
            }
        }
        lemma_scan_plain(before, width);
        lemma_next_column(clusters.len() - 2, width as int);
        lemma_fundamental_div_mod(clusters.len() - 2, width as int);
    }
}

/// Without line feeds and zero-width clusters, a text of `n >= 1` clusters
/// fills `n / width` rows, and one more where `width` does not divide `n`.
pub proof fn lemma_unbroken_text_rows(clusters: Seq<Seq<char>>, width: nat)
    requires
        clusters.len() >= 1,
        width >= 1,
        all_plain(clusters),
    ensures
        cluster_rows(clusters, width) == if clusters.len() % width != 0 {
            clusters.len() / width + 1
        } else {
            clusters.len() / width
        },
{
    lemma_scan_plain(clusters, width);
    lemma_next_column(clusters.len() - 1, width as int);
    lemma_fundamental_div_mod(clusters.len() - 1, width as int);
}

/// A text whose only cluster is a line feed occupies two rows at any width.
pub proof fn lemma_single_newline_rows(width: nat)
    ensures
        cluster_rows(seq![seq!['\n']], width) == 2,
{
    let clusters = seq![seq!['\n']];
    assert(clusters.drop_last() =~= Seq::<Seq<char>>::empty());
    assert(is_newline(clusters.last()));
    assert(scan(clusters.drop_last(), width) == Cursor { rows: 0, col: 0 });
}

/// A text made of zero-width clusters alone occupies one row, however many
/// they are.
pub proof fn lemma_zero_width_only_rows(clusters: Seq<Seq<char>>, width: nat)
    requires
        forall|i: int| 0 <= i < clusters.len() ==> is_zero_width(#[trigger] clusters[i]),
    ensures
        cluster_rows(clusters, width) == 1,
    decreases clusters.len(),
{
    if clusters.len() > 0 {
        let before = clusters.drop_last();
        assert forall|i: int| 0 <= i < before.len() implies is_zero_width(#[trigger] before[i]) by {
            assert(before[i] == clusters[i]);
        }
        lemma_zero_width_only_rows(before, width);
        assert(is_zero_width(clusters[clusters.len() - 1]));
    }
}

/// A zero-width cluster put anywhere among the clusters leaves the scan
/// where it was.
proof fn lemma_scan_skips_zero_width(
    clusters: Seq<Seq<char>>,
    width: nat,
    at: int,
    cluster: Seq<char>,
)
    requires
        0 <= at <= clusters.len(),
        is_zero_width(cluster),
    ensures
        scan(clusters.insert(at, cluster), width) == scan(clusters, width),
    decreases clusters.len(),
{
    let longer = clusters.insert(at, cluster);
    if at == clusters.len() {
        assert(longer.drop_last() =~= clusters);
        assert(longer.last() == cluster);
    } else {
        assert(longer.drop_last() =~= clusters.drop_last().insert(at, cluster));
        assert(longer.last() == clusters.last());
        lemma_scan_skips_zero_width(clusters.drop_last(), width, at, cluster);
    }
}

/// Putting a carriage return or a byte-order mark between the clusters of a
/// text, before the first or after the last, does not change the rows that
/// the text occupies.
pub proof fn lemma_zero_width_insertion_keeps_rows(
    clusters: Seq<Seq<char>>,
    width: nat,
    at: int,
    cluster: Seq<char>,
)
    requires
        0 <= at <= clusters.len(),
        is_zero_width(cluster),
    ensures
        cluster_rows(clusters.insert(at, cluster), width) == cluster_rows(clusters, width),
{
    lemma_scan_skips_zero_width(clusters, width, at, cluster);
}

} // verus!
