//! The canonical signature of a word: its grapheme clusters in sorted order.
//! A puzzle shows the signature of its answer, and two words are anagrams of
//! each other exactly when their signatures are equal.

use crate::order::{
    cluster_le, cluster_order, cluster_precedes, lemma_cluster_le_total,
    lemma_cluster_le_transitive, lemma_cluster_order_is_total,
};
use unicode_segmentation::UnicodeSegmentation;
use vstd::prelude::*;
use vstd::relations::*;
use vstd::seq_lib::*;
use vstd::string::*;

verus! {

/// The extended grapheme clusters of a text, first to last, as
/// `UnicodeSegmentation::graphemes` of the crate `unicode-segmentation` cuts
/// them. The segmentation rules fill a chapter of the Unicode standard and are
/// not restated here.
pub uninterp spec fn grapheme_clusters(text: Seq<char>) -> Seq<Seq<char>>;

/// Calls `UnicodeSegmentation::graphemes(text, true)` and copies each cluster
/// into a string of its own. Trusted: the clusters that come back are the
/// ones `grapheme_clusters` names.
#[verifier::external_body]
pub(crate) fn graphemes(text: &str) -> (clusters: Vec<String>)
    ensures
        clusters.deep_view() == grapheme_clusters(text@),
{
    UnicodeSegmentation::graphemes(text, true).map(|cluster| cluster.to_string()).collect()
}

/// The clusters in ascending cluster order.
pub open spec fn sorted_clusters(clusters: Seq<Seq<char>>) -> Seq<Seq<char>> {
    clusters.sort_by(cluster_order())
}

/// The signature of a word that consists of the given clusters.
pub open spec fn signature_from(clusters: Seq<Seq<char>>) -> Seq<char> {
    sorted_clusters(clusters).flatten()
}

/// The signature of a word.
pub open spec fn signature_of(word: Seq<char>) -> Seq<char> {
    signature_from(grapheme_clusters(word))
}

/// Two words are anagrams of each other when they have the same signature.
pub open spec fn is_anagram_of(a: Seq<char>, b: Seq<char>) -> bool {
    signature_of(a) == signature_of(b)
}

/// A sorted sequence stays sorted when a cluster is put where everything
/// before it is no larger and the cluster after it is no smaller.
proof fn lemma_insert_keeps_sorted(s: Seq<Seq<char>>, at: int, x: Seq<char>)
    requires
        sorted_by(s, cluster_order()),
        0 <= at <= s.len(),
        forall|k: int| 0 <= k < at ==> cluster_le(#[trigger] s[k], x),
        at < s.len() ==> cluster_le(x, s[at]),
    ensures
        sorted_by(s.insert(at, x), cluster_order()),
{
    let t = s.insert(at, x);
    let r = cluster_order();
    assert forall|i: int, j: int| 0 <= i < j < t.len() implies #[trigger] r(t[i], t[j]) by {
        if j < at {
            assert(r(s[i], s[j]));
        } else if j == at {
            assert(cluster_le(s[i], x));
        } else if i == at {
            if j - 1 > at {
                assert(r(s[at], s[j - 1]));
                lemma_cluster_le_transitive(x, s[at], s[j - 1]);
            }
        } else if i < at {
            assert(r(s[i], s[j - 1]));
        } else {
            assert(r(s[i - 1], s[j - 1]));
        }
    }
}

/// Sorts clusters into ascending cluster order.
pub fn sort_clusters(clusters: &Vec<String>) -> (sorted: Vec<String>)
    ensures
        sorted.deep_view() == sorted_clusters(clusters.deep_view()),
{
    let ghost input = clusters.deep_view();
    let mut sorted: Vec<String> = Vec::new();
    let mut i: usize = 0;
    proof {
        assert(input.take(0) =~= Seq::<Seq<char>>::empty());
        assert(sorted.deep_view() =~= Seq::<Seq<char>>::empty());
    }
    while i < clusters.len()
        invariant
            i <= clusters.len(),
            input == clusters.deep_view(),
            sorted_by(sorted.deep_view(), cluster_order()),
            sorted.deep_view().to_multiset() == input.take(i as int).to_multiset(),
        decreases clusters.len() - i,
    {
        let item: String = clusters[i].clone();
        let ghost before = sorted.deep_view();
        let mut at: usize = 0;
        while at < sorted.len() && cluster_precedes(sorted[at].as_str(), item.as_str())
            invariant
                at <= sorted.len(),
                before == sorted.deep_view(),
                forall|k: int| 0 <= k < at ==> cluster_le(#[trigger] before[k], item@),
            decreases sorted.len() - at,
        {
            at += 1;
        }
        proof {
            if at < sorted.len() {
                lemma_cluster_le_total(before[at as int], item@);
            }
            lemma_insert_keeps_sorted(before, at as int, item@);
            to_multiset_insert(before, at as int, item@);
            assert(input.take(i + 1) =~= input.take(i as int).push(item@));
            to_multiset_build(input.take(i as int), item@);
        }
        sorted.insert(at, item);
        proof {
            assert(sorted.deep_view() =~= before.insert(at as int, item@));
        }
        i += 1;
    }
    proof {
        assert(input.take(i as int) =~= input);
        lemma_cluster_order_is_total();
        input.lemma_sort_by_ensures(cluster_order());
        lemma_sorted_unique(sorted.deep_view(), sorted_clusters(input), cluster_order());
    }
    sorted
}

/// Writes the parts one after another into one string.
pub fn join_all(parts: &Vec<String>) -> (text: String)
    ensures
        text@ == parts.deep_view().flatten(),
{
    let mut text: String = String::new();
    let mut i: usize = 0;
    proof {
        assert(parts.deep_view().take(0) =~= Seq::<Seq<char>>::empty());
    }
    while i < parts.len()
        invariant
            i <= parts.len(),
            text@ == parts.deep_view().take(i as int).flatten(),
        decreases parts.len() - i,
    {
        proof {
            assert(parts.deep_view().take(i + 1) =~= parts.deep_view().take(i as int).push(
                parts[i as int]@,
            ));
            parts.deep_view().take(i as int).lemma_flatten_push(parts[i as int]@);
        }
        text.append(parts[i].as_str());
        i += 1;
    }
    proof {
        assert(parts.deep_view().take(i as int) =~= parts.deep_view());
    }
    text
}

/// The signature of a word that has already been cut into its clusters.
pub fn signature_of_clusters(clusters: &Vec<String>) -> (signature: String)
    ensures
        signature@ == signature_from(clusters.deep_view()),
{
    let sorted = sort_clusters(clusters);
    join_all(&sorted)
}

/// The signature of a word: its grapheme clusters, sorted and written one
/// after another.
pub fn signature(word: &str) -> (signature: String)
    ensures
        signature@ == signature_of(word@),
{
    let clusters = graphemes(word);
    signature_of_clusters(&clusters)
}

/// The signature depends on which clusters a word holds and how often, not
/// on their order: clusters that are a rearrangement of one another give the
/// same signature.
pub proof fn signature_ignores_cluster_order(a: Seq<Seq<char>>, b: Seq<Seq<char>>)
    requires
        a.to_multiset() == b.to_multiset(),
    ensures
        signature_from(a) == signature_from(b),
{
    lemma_cluster_order_is_total();
    a.lemma_sort_by_ensures(cluster_order());
    b.lemma_sort_by_ensures(cluster_order());
    lemma_sorted_unique(sorted_clusters(a), sorted_clusters(b), cluster_order());
}

/// A word whose grapheme clusters are a rearrangement of those of another
/// word has the same signature as that word.
pub proof fn signature_ignores_order(word: Seq<char>, rearranged: Seq<char>)
    requires
        grapheme_clusters(rearranged).to_multiset() == grapheme_clusters(word).to_multiset(),
    ensures
        signature_of(rearranged) == signature_of(word),
        is_anagram_of(rearranged, word),
{
    signature_ignores_cluster_order(grapheme_clusters(rearranged), grapheme_clusters(word));
}

} // verus!
