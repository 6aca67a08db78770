//! Hints: a part of the answer, shown on request. A hint that would give
//! the answer away counts as giving up.

use vstd::prelude::*;
use vstd::string::*;

verus! {

/// A request for a hint.
#[derive(Clone, Copy, Debug, PartialEq, Eq, Structural)]
pub enum Hint {
    /// Show the first clusters of the answer, this many.
    First(usize),
    /// Show this many clusters of the answer, picked at random, each at
    /// its place.
    Random(usize),
}

impl Hint {
    /// The number of clusters that the request asks for.
    pub open spec fn amount(self) -> usize {
        match self {
            Hint::First(n) => n,
            Hint::Random(n) => n,
        }
    }

    /// The number of clusters that the request asks for.
    pub fn num(self) -> (n: usize)
        ensures
            n == self.amount(),
    {
        match self {
            Hint::First(n) => n,
            Hint::Random(n) => n,
        }
    }
}

/// What becomes of a request for `n` clusters of an answer.
#[derive(Clone, Copy, Debug, PartialEq, Eq, Structural)]
pub enum HintRuling {
    /// Refused: a hint of no cluster is no hint.
    Zero,
    /// The hint would leave at most one cluster open, so it counts as
    /// giving up.
    GiveUp,
    /// Refused: the answer has fewer clusters than were asked for.
    TooLong,
    /// The hint is given.
    Reveal,
}

/// The ruling on a request for `n` clusters of an answer of `len` clusters.
/// The cases are tried in this order.
pub open spec fn ruling(n: nat, len: nat) -> HintRuling {
    if n == 0 {
        HintRuling::Zero
    } else if n == len || n + 1 == len {
        HintRuling::GiveUp
    } else if n > len {
        HintRuling::TooLong
    } else {
        HintRuling::Reveal
    }
}

/// Rules on a request for `n` clusters of an answer of `len` clusters.
pub fn rule(n: usize, len: usize) -> (r: HintRuling)
    ensures
        r == ruling(n as nat, len as nat),
{
    if n == 0 {
        HintRuling::Zero
    } else if n == len || (len > 0 && n == len - 1) {
        HintRuling::GiveUp
    } else if n > len {
        HintRuling::TooLong
    } else {
        HintRuling::Reveal
    }
}

/// A request for no cluster is always refused. A request for at least one
/// cluster counts as giving up when it asks for all clusters of the answer
/// or for all but one, is refused when it asks for more clusters than the
/// answer has, and is granted in every other case: when at least two
/// clusters stay open.
pub proof fn ruling_cases(n: nat, len: nat)
    ensures
        n == 0 ==> ruling(n, len) is Zero,
        n >= 1 && (n == len || n == len - 1) ==> ruling(n, len) is GiveUp,
        n > len ==> ruling(n, len) is TooLong,
        ruling(n, len) is Reveal <==> 1 <= n && n + 2 <= len,
{
}

/// The sign that stands for a cluster that a hint does not show.
pub open spec fn placeholder() -> Seq<char> {
    "*"@
}

/// The first `n` clusters, and all of them where there are fewer.
pub open spec fn first_part(clusters: Seq<Seq<char>>, n: nat) -> Seq<Seq<char>> {
    if n <= clusters.len() {
        clusters.take(n as int)
    } else {
        clusters
    }
}

/// The first `n` clusters of an answer, and all of them where there are
/// fewer.
pub fn first_clusters(clusters: &Vec<String>, n: usize) -> (hint: Vec<String>)
    ensures
        hint.deep_view() == first_part(clusters.deep_view(), n as nat),
{
    let mut hint: Vec<String> = Vec::new();
    let mut i: usize = 0;
    while i < n && i < clusters.len()
        invariant
            i <= clusters.len(),
            i <= n,
            hint@.len() == i,
            forall|k: int| 0 <= k < i ==> hint@[k]@ == clusters@[k]@,
        decreases clusters.len() - i,
    {
        hint.push(clusters[i].clone());
        i += 1;
    }
    assert(hint.deep_view() =~= first_part(clusters.deep_view(), n as nat));
    hint
}

/// The places that a list of positions names.
pub open spec fn places(positions: Seq<usize>) -> Set<int> {
    Set::new(|p: int| exists|k: int| 0 <= k < positions.len() && #[trigger] positions[k] == p)
}

/// The clusters with every place masked that is not among `shown`.
pub open spec fn masked(clusters: Seq<Seq<char>>, shown: Set<int>) -> Seq<Seq<char>> {
    Seq::new(
        clusters.len(),
        |i: int|
            if shown.contains(i) {
                clusters[i]
            } else {
                placeholder()
            },
    )
}

/// The clusters of an answer with only the given positions shown: every
/// other cluster is replaced by the placeholder, and each cluster stays at
/// its place. A position beyond the answer names nothing.
pub fn reveal_at(clusters: &Vec<String>, positions: &Vec<usize>) -> (hint: Vec<String>)
    ensures
        hint.deep_view() == masked(clusters.deep_view(), places(positions@)),
{
    let mut hint: Vec<String> = Vec::new();
    let mut i: usize = 0;
    while i < clusters.len()
        invariant
            i <= clusters.len(),
            hint@.len() == i,
            forall|k: int| 0 <= k < i ==> hint@[k]@ == placeholder(),
        decreases clusters.len() - i,
    {
        hint.push(String::from_str("*"));
        i += 1;
    }
    let mut j: usize = 0;
    while j < positions.len()
        invariant
            j <= positions.len(),
            hint@.len() == clusters@.len(),
            forall|k: int|
                0 <= k < hint@.len() ==> hint@[k]@ == (if places(positions@.take(j as int)).contains(
                    k,
                ) {
                    clusters@[k]@
                } else {
                    placeholder()
                }),
        decreases positions.len() - j,
    {
        let p = positions[j];
        let ghost before = hint@;
        if p < clusters.len() {
            hint.set(p, clusters[p].clone());
        }
        proof {
            let done = positions@.take(j as int);
            let next = positions@.take(j + 1);
            assert(next[j as int] == p);
            assert forall|k: int| 0 <= k < hint@.len() implies hint@[k]@ == (if places(
                next,
            ).contains(k) {
                clusters@[k]@
            } else {
                placeholder()
            }) by {
                if places(done).contains(k) {
                    let w = choose|w: int| 0 <= w < done.len() && #[trigger] done[w] == k;
                    assert(next[w] == k);
                }
                if places(next).contains(k) && k != p {
                    let w = choose|w: int| 0 <= w < next.len() && #[trigger] next[w] == k;
                    assert(done[w] == k);
                }
            }
        }
        j += 1;
    }
    proof {
        assert(positions@.take(j as int) =~= positions@);
        assert(hint.deep_view() =~= masked(clusters.deep_view(), places(positions@)));
    }
    hint
}

/// The places at which a masked answer shows the cluster of the answer.
pub open spec fn shown_places(len: nat, shown: Set<int>) -> Set<int> {
    Set::new(|i: int| 0 <= i < len && shown.contains(i))
}

/// Distinct positions within the answer show as many clusters as there are
/// positions.
pub proof fn lemma_distinct_positions_show_each(len: nat, positions: Seq<usize>)
    requires
        positions.no_duplicates(),
        forall|k: int| 0 <= k < positions.len() ==> positions[k] < len,
    ensures
        shown_places(len, places(positions)).finite(),
        shown_places(len, places(positions)).len() == positions.len(),
    decreases positions.len(),
{
    let all = shown_places(len, places(positions));
    if positions.len() == 0 {
        assert(all =~= Set::<int>::empty());
    } else {
        let rest = positions.drop_last();
        let p = positions.last() as int;
        lemma_distinct_positions_show_each(len, rest);
        let fewer = shown_places(len, places(rest));
        assert(!fewer.contains(p)) by {
            if fewer.contains(p) {
                let w = choose|w: int| 0 <= w < rest.len() && #[trigger] rest[w] == p;
                assert(positions[w] == positions[positions.len() - 1]);
            }
        }
        assert(all =~= fewer.insert(p)) by {
            assert forall|i: int| all.contains(i) <==> fewer.insert(p).contains(i) by {
                if all.contains(i) {
                    let w = choose|w: int| 0 <= w < positions.len() && #[trigger] positions[w] == i;
                    if w < rest.len() {
                        assert(rest[w] == i);
                    }
                }
                if fewer.contains(i) {
                    let w = choose|w: int| 0 <= w < rest.len() && #[trigger] rest[w] == i;
                    assert(positions[w] == i);
                }
                if i == p {
                    assert(positions[positions.len() - 1] == p);
                }
            }
        }
    }
}

/// A hint at `n` distinct positions of an answer shows exactly `n` of its
/// clusters: it is as long as the answer, shows at each of the positions
/// the cluster that stands there, and the placeholder everywhere else.
/// Where no cluster of the answer is itself the placeholder, exactly `n`
/// places of the hint hold something other than the placeholder.
pub proof fn random_hint_shows_n(clusters: Seq<Seq<char>>, positions: Seq<usize>)
    requires
        positions.no_duplicates(),
        forall|k: int| 0 <= k < positions.len() ==> positions[k] < clusters.len(),
    ensures
        masked(clusters, places(positions)).len() == clusters.len(),
        shown_places(clusters.len(), places(positions)).len() == positions.len(),
        forall|i: int|
            0 <= i < clusters.len() ==> #[trigger] masked(clusters, places(positions))[i] == (
            if shown_places(clusters.len(), places(positions)).contains(i) {
                clusters[i]
            } else {
                placeholder()
            }),
        (forall|i: int| 0 <= i < clusters.len() ==> clusters[i] != placeholder()) ==> Set::new(
            |i: int|
                0 <= i < clusters.len() && masked(clusters, places(positions))[i] != placeholder(),
        ).len() == positions.len(),
{
    lemma_distinct_positions_show_each(clusters.len(), positions);
    if forall|i: int| 0 <= i < clusters.len() ==> clusters[i] != placeholder() {
        assert(Set::new(
            |i: int|
                0 <= i < clusters.len() && masked(clusters, places(positions))[i] != placeholder(),
        ) =~= shown_places(clusters.len(), places(positions)));
    }
}

/// A hint of the first `n` clusters of an answer that has at least `n`
/// clusters is `n` clusters long and shows the first `n` clusters of the
/// answer.
pub proof fn prefix_hint_is_first_n(clusters: Seq<Seq<char>>, n: nat)
    requires
        n <= clusters.len(),
    ensures
        first_part(clusters, n).len() == n,
        forall|i: int| 0 <= i < n ==> first_part(clusters, n)[i] == clusters[i],
{
}

} // verus!
