//! The ranking of a contest: highest count first, and among equal counts
//! whoever was entered first.

use itertools::Itertools;
use std::cmp::Ordering;
use vstd::prelude::*;
use vstd::seq_lib::*;

verus! {

/// `ranked` holds the entries in ranked order: the same entries, counts
/// never rising, and two entries with one count in the order in which they
/// stand among the entries.
pub open spec fn is_ranking_of(
    ranked: Seq<(Seq<char>, u64)>,
    entries: Seq<(Seq<char>, u64)>,
) -> bool {
    &&& ranked.to_multiset() == entries.to_multiset()
    &&& forall|i: int, j: int|
        0 <= i < j < ranked.len() ==> (#[trigger] ranked[i]).1 >= (#[trigger] ranked[j]).1
    &&& forall|i: int, j: int|
        0 <= i < j < ranked.len() && (#[trigger] ranked[i]).1 == (#[trigger] ranked[j]).1
            ==> stands_before(entries, ranked[i], ranked[j])
}

/// Somewhere among the entries `first` stands before `second`.
pub open spec fn stands_before(
    entries: Seq<(Seq<char>, u64)>,
    first: (Seq<char>, u64),
    second: (Seq<char>, u64),
) -> bool {
    exists|a: int, b: int|
        0 <= a < b < entries.len() && #[trigger] entries[a] == first && #[trigger] entries[b]
            == second
}

/// Orders two entries for the ranking: the higher count comes first.
pub fn by_count_descending(a: &(String, u64), b: &(String, u64)) -> (order: Ordering)
    ensures
        order == (if a.1 > b.1 {
            Ordering::Less
        } else if a.1 < b.1 {
            Ordering::Greater
        } else {
            Ordering::Equal
        }),
{
    if a.1 > b.1 {
        Ordering::Less
    } else if a.1 < b.1 {
        Ordering::Greater
    } else {
        Ordering::Equal
    }
}

/// Calls `Itertools::sorted_by` with `by_count_descending`. Trusted: the
/// outcome is the stable sort that `slice::sort_by` documents, so it holds
/// the same entries, no count rises along it, and entries that compare
/// equal keep the order they came in.
#[verifier::external_body]
pub(crate) fn sorted_by_count(entries: Vec<(String, u64)>) -> (ranked: Vec<(String, u64)>)
    ensures
        is_ranking_of(ranked.deep_view(), entries.deep_view()),
{
    entries.into_iter().sorted_by(|a, b| by_count_descending(a, b)).collect()
}

/// A ranking holds each entry exactly once when the entries do.
proof fn lemma_ranking_has_no_duplicates(
    ranked: Seq<(Seq<char>, u64)>,
    entries: Seq<(Seq<char>, u64)>,
)
    requires
        entries.no_duplicates(),
        ranked.to_multiset() == entries.to_multiset(),
    ensures
        ranked.no_duplicates(),
        ranked.len() == entries.len(),
{
    entries.lemma_multiset_has_no_duplicates();
    ranked.lemma_multiset_has_no_duplicates_conv();
    to_multiset_len(ranked);
    to_multiset_len(entries);
}

/// Every entry of one ranking stands somewhere in every other ranking.
proof fn lemma_ranked_entry_is_found(
    a: Seq<(Seq<char>, u64)>,
    b: Seq<(Seq<char>, u64)>,
    i: int,
) -> (j: int)
    requires
        a.to_multiset() == b.to_multiset(),
        0 <= i < a.len(),
    ensures
        0 <= j < b.len(),
        b[j] == a[i],
{
    to_multiset_contains(a, a[i]);
    to_multiset_contains(b, a[i]);
    assert(a.contains(a[i]));
    choose|j: int| 0 <= j < b.len() && b[j] == a[i]
}

/// Two rankings of entries without repetition begin with the same entry.
proof fn lemma_rankings_begin_alike(
    a: Seq<(Seq<char>, u64)>,
    b: Seq<(Seq<char>, u64)>,
    entries: Seq<(Seq<char>, u64)>,
)
    requires
        entries.no_duplicates(),
        entries.len() > 0,
        is_ranking_of(a, entries),
        is_ranking_of(b, entries),
    ensures
        a.len() > 0,
        b.len() > 0,
        a[0] == b[0],
{
    lemma_ranking_has_no_duplicates(a, entries);
    lemma_ranking_has_no_duplicates(b, entries);
    let j = lemma_ranked_entry_is_found(a, b, 0);
    let i = lemma_ranked_entry_is_found(b, a, 0);
    if i != 0 && j != 0 {
        assert(a[0].1 >= a[i].1);
        assert(b[0].1 >= b[j].1);
        assert(stands_before(entries, a[0], a[i]));
        assert(stands_before(entries, b[0], b[j]));
        let (p, q) = choose|p: int, q: int|
            0 <= p < q < entries.len() && #[trigger] entries[p] == a[0] && #[trigger] entries[q]
                == a[i];
        let (r, t) = choose|r: int, t: int|
            0 <= r < t < entries.len() && #[trigger] entries[r] == b[0] && #[trigger] entries[t]
                == b[j];
        assert(entries[p] == entries[t]);
        assert(entries[q] == entries[r]);
    }
}

/// What is left of a ranking behind its first entry ranks the entries
/// without that entry.
proof fn lemma_rest_of_ranking(
    a: Seq<(Seq<char>, u64)>,
    entries: Seq<(Seq<char>, u64)>,
    k: int,
)
    requires
        entries.no_duplicates(),
        is_ranking_of(a, entries),
        a.len() > 0,
        0 <= k < entries.len(),
        entries[k] == a[0],
    ensures
        entries.remove(k).no_duplicates(),
        is_ranking_of(a.drop_first(), entries.remove(k)),
{
    let rest = a.drop_first();
    let fewer = entries.remove(k);
    lemma_ranking_has_no_duplicates(a, entries);
    assert(rest =~= a.remove(0));
    to_multiset_remove(a, 0);
    to_multiset_remove(entries, k);
    assert forall|i: int, j: int| 0 <= i < j < rest.len() implies (#[trigger] rest[i]).1 >= (
    #[trigger] rest[j]).1 by {
        assert(a[i + 1].1 >= a[j + 1].1);
    }
    assert forall|i: int, j: int|
        0 <= i < j < rest.len() && (#[trigger] rest[i]).1 == (#[trigger] rest[j]).1 implies stands_before(
        fewer,
        rest[i],
        rest[j],
    ) by {
        assert(a[i + 1].1 == a[j + 1].1);
        assert(stands_before(entries, a[i + 1], a[j + 1]));
        let (p, q) = choose|p: int, q: int|
            0 <= p < q < entries.len() && #[trigger] entries[p] == a[i + 1]
                && #[trigger] entries[q] == a[j + 1];
        assert(a[i + 1] != a[0]);
        assert(a[j + 1] != a[0]);
        let first_at = if p < k {
            p
        } else {
            p - 1
        };
        let second_at = if q < k {
            q
        } else {
            q - 1
        };
        assert(fewer[first_at] == entries[p]);
        assert(fewer[second_at] == entries[q]);
    }
}

/// Entries without repetition have one ranking only: the rule that orders
/// them leaves nothing open.
pub proof fn ranking_is_unique(
    a: Seq<(Seq<char>, u64)>,
    b: Seq<(Seq<char>, u64)>,
    entries: Seq<(Seq<char>, u64)>,
)
    requires
        entries.no_duplicates(),
        is_ranking_of(a, entries),
        is_ranking_of(b, entries),
    ensures
        a == b,
    decreases entries.len(),
{
    lemma_ranking_has_no_duplicates(a, entries);
    lemma_ranking_has_no_duplicates(b, entries);
    if entries.len() == 0 {
        assert(a =~= b);
    } else {
        lemma_rankings_begin_alike(a, b, entries);
        let k = lemma_ranked_entry_is_found(a, entries, 0);
        lemma_rest_of_ranking(a, entries, k);
        lemma_rest_of_ranking(b, entries, k);
        ranking_is_unique(a.drop_first(), b.drop_first(), entries.remove(k));
        assert(a =~= seq![a[0]] + a.drop_first());
        assert(b =~= seq![b[0]] + b.drop_first());
    }
}

} // verus!
