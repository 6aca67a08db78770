//! Comparing texts: whether two are the same, and the total order on
//! grapheme clusters by which the letters of a word are sorted.

use vstd::prelude::*;
use vstd::relations::*;
use vstd::string::*;

verus! {

/// `a` comes no later than `b`: code points are compared one by one, the
/// first difference decides, and a cluster precedes every longer cluster
/// that starts with it.
pub open spec fn cluster_le(a: Seq<char>, b: Seq<char>) -> bool
    decreases a.len(),
{
    if a.len() == 0 {
        true
    } else if b.len() == 0 {
        false
    } else if a[0] == b[0] {
        cluster_le(a.drop_first(), b.drop_first())
    } else {
        (a[0] as int) < (b[0] as int)
    }
}

/// The order as a relation, in the form the sequence library takes.
pub open spec fn cluster_order() -> spec_fn(Seq<char>, Seq<char>) -> bool {
    |a: Seq<char>, b: Seq<char>| cluster_le(a, b)
}

/// Every cluster comes no later than itself.
pub proof fn lemma_cluster_le_reflexive(a: Seq<char>)
    ensures
        cluster_le(a, a),
    decreases a.len(),
{
    if a.len() > 0 {
        lemma_cluster_le_reflexive(a.drop_first());
    }
}

/// Two clusters of which each comes no later than the other are the same.
pub proof fn lemma_cluster_le_antisymmetric(a: Seq<char>, b: Seq<char>)
    requires
        cluster_le(a, b),
        cluster_le(b, a),
    ensures
        a == b,
    decreases a.len(),
{
    if a.len() == 0 || b.len() == 0 {
        assert(a =~= b);
    } else {
        lemma_cluster_le_antisymmetric(a.drop_first(), b.drop_first());
        assert(a =~= seq![a[0]] + a.drop_first());
        assert(b =~= seq![b[0]] + b.drop_first());
    }
}

/// What comes no later than a cluster comes no later than anything that
/// follows that cluster.
pub proof fn lemma_cluster_le_transitive(a: Seq<char>, b: Seq<char>, c: Seq<char>)
    requires
        cluster_le(a, b),
        cluster_le(b, c),
    ensures
        cluster_le(a, c),
    decreases a.len(),
{
    if a.len() > 0 && b.len() > 0 && c.len() > 0 && a[0] == b[0] && b[0] == c[0] {
        lemma_cluster_le_transitive(a.drop_first(), b.drop_first(), c.drop_first());
    }
}

/// Of two clusters one comes no later than the other.
pub proof fn lemma_cluster_le_total(a: Seq<char>, b: Seq<char>)
    ensures
        cluster_le(a, b) || cluster_le(b, a),
    decreases a.len(),
{
    if a.len() > 0 && b.len() > 0 {
        if a[0] == b[0] {
            lemma_cluster_le_total(a.drop_first(), b.drop_first());
        }
    }
}

/// The cluster order is a total order.
pub proof fn lemma_cluster_order_is_total()
    ensures
        total_ordering(cluster_order()),
{
    let r = cluster_order();
    assert forall|x: Seq<char>| #[trigger] r(x, x) by {
        lemma_cluster_le_reflexive(x);
    }
    assert forall|x: Seq<char>, y: Seq<char>| #[trigger] r(x, y) && #[trigger] r(y, x) implies x
        == y by {
        lemma_cluster_le_antisymmetric(x, y);
    }
    assert forall|x: Seq<char>, y: Seq<char>, z: Seq<char>| #[trigger]
        r(x, y) && #[trigger] r(y, z) implies r(x, z) by {
        lemma_cluster_le_transitive(x, y, z);
    }
    assert forall|x: Seq<char>, y: Seq<char>| #[trigger] r(x, y) || #[trigger] r(y, x) by {
        lemma_cluster_le_total(x, y);
    }
}

/// Decides the cluster order on two strings.
pub fn cluster_precedes(a: &str, b: &str) -> (r: bool)
    ensures
        r == cluster_le(a@, b@),
{
    let la: usize = a.unicode_len();
    let lb: usize = b.unicode_len();
    let mut i: usize = 0;
    proof {
        assert(a@.skip(0) =~= a@);
        assert(b@.skip(0) =~= b@);
    }
    while i < la && i < lb
        invariant
            i <= la,
            i <= lb,
            la == a@.len(),
            lb == b@.len(),
            cluster_le(a@, b@) == cluster_le(a@.skip(i as int), b@.skip(i as int)),
        decreases la - i,
    {
        let ca: char = a.get_char(i);
        let cb: char = b.get_char(i);
        if ca != cb {
            return ca < cb;
        }
        proof {
            assert(a@.skip(i as int).drop_first() =~= a@.skip(i + 1));
            assert(b@.skip(i as int).drop_first() =~= b@.skip(i + 1));
        }
        i += 1;
    }
    i == la
}

/// Whether two texts are the same, letter for letter.
pub fn str_equal(a: &str, b: &str) -> (same: bool)
    ensures
        same == (a@ == b@),
{
    let la: usize = a.unicode_len();
    let lb: usize = b.unicode_len();
    if la != lb {
        return false;
    }
    let mut i: usize = 0;
    while i < la
        invariant
            i <= la,
            la == a@.len(),
            lb == b@.len(),
            la == lb,
            forall|k: int| 0 <= k < i ==> a@[k] == b@[k],
        decreases la - i,
    {
        if a.get_char(i) != b.get_char(i) {
            return false;
        }
        i += 1;
    }
    assert(a@ =~= b@);
    true
}

} // verus!
