//! The results of a contest: for each participant the number of correct
//! answers, in the order in which the participants first scored.

use crate::decimal::{decimal, decimal_text};
use crate::ranking::{is_ranking_of, ranking_is_unique, sorted_by_count};
use indexmap::IndexMap;
use vstd::prelude::*;
use vstd::string::*;

verus! {

/// The insertion-ordered map of the crate `indexmap`. Nothing inside it is
/// visible here; what it holds goes by the name `entries`.
#[verifier::external_type_specification]
#[verifier::external_body]
#[verifier::reject_recursive_types(K)]
#[verifier::reject_recursive_types(V)]
#[verifier::reject_recursive_types(S)]
pub struct ExIndexMap<K, V, S>(IndexMap<K, V, S>);

/// What a map holds: its key-value pairs in the order in which the keys
/// were first inserted.
pub uninterp spec fn entries(map: IndexMap<String, u64>) -> Seq<(Seq<char>, u64)>;

/// `IndexMap::new`. Trusted: the new map holds nothing.
#[verifier::external_body]
pub(crate) fn map_new() -> (map: IndexMap<String, u64>)
    ensures
        entries(map).len() == 0,
{
    IndexMap::new()
}

/// `IndexMap::get`. Trusted: it finds the value that stands with the key,
/// and nothing where no entry has the key.
#[verifier::external_body]
pub(crate) fn map_get(map: &IndexMap<String, u64>, key: &str) -> (value: Option<u64>)
    ensures
        forall|i: int|
            0 <= i < entries(*map).len() && (#[trigger] entries(*map)[i]).0 == key@ ==> value
                == Some(entries(*map)[i].1),
        (forall|i: int| 0 <= i < entries(*map).len() ==> (#[trigger] entries(*map)[i]).0 != key@)
            ==> value is None,
{
    map.get(key).copied()
}

/// `IndexMap::insert`. Trusted: where an entry has the key, its value
/// is replaced and it keeps its place; otherwise the pair becomes the last
/// entry.
#[verifier::external_body]
pub(crate) fn map_insert(map: &mut IndexMap<String, u64>, key: String, value: u64)
    ensures
        forall|i: int|
            0 <= i < entries(*old(map)).len() && (#[trigger] entries(*old(map))[i]).0 == key@
                ==> entries(*final(map)) == entries(*old(map)).update(i, (key@, value)),
        (forall|i: int|
            0 <= i < entries(*old(map)).len() ==> (#[trigger] entries(*old(map))[i]).0 != key@)
            ==> entries(*final(map)) == entries(*old(map)).push((key@, value)),
{
    map.insert(key, value);
}

/// `IndexMap::len`. Trusted: it counts the entries.
#[verifier::external_body]
pub(crate) fn map_len(map: &IndexMap<String, u64>) -> (n: usize)
    ensures
        n == entries(*map).len(),
{
    map.len()
}

/// `IndexMap::iter`. Trusted: it walks the entries in their order.
#[verifier::external_body]
pub(crate) fn map_entries(map: &IndexMap<String, u64>) -> (pairs: Vec<(String, u64)>)
    ensures
        pairs.deep_view() == entries(*map),
{
    map.iter().map(|(key, value)| (key.clone(), *value)).collect()
}

/// No two entries have the same key.
pub open spec fn distinct_keys(entries: Seq<(Seq<char>, u64)>) -> bool {
    forall|i: int, j: int|
        0 <= i < j < entries.len() ==> (#[trigger] entries[i]).0 != (#[trigger] entries[j]).0
}

/// Entries with different keys are different entries.
pub proof fn lemma_distinct_keys_are_distinct_entries(entries: Seq<(Seq<char>, u64)>)
    requires
        distinct_keys(entries),
    ensures
        entries.no_duplicates(),
{
    assert forall|i: int, j: int|
        0 <= i < entries.len() && 0 <= j < entries.len() && i != j implies entries[i]
        != entries[j] by {
        if i < j {
            assert(entries[i].0 != entries[j].0);
        } else {
            assert(entries[j].0 != entries[i].0);
        }
    }
}

/// The results of a contest can be ranked in one way only: with each
/// participant entered once, the counts and the order of entry settle the
/// place of every participant.
pub proof fn results_have_one_ranking(
    a: Seq<(Seq<char>, u64)>,
    b: Seq<(Seq<char>, u64)>,
    entries: Seq<(Seq<char>, u64)>,
)
    requires
        distinct_keys(entries),
        is_ranking_of(a, entries),
        is_ranking_of(b, entries),
    ensures
        a == b,
{
    lemma_distinct_keys_are_distinct_entries(entries);
    ranking_is_unique(a, b, entries);
}

/// An entry has the key.
pub open spec fn has_key(entries: Seq<(Seq<char>, u64)>, key: Seq<char>) -> bool {
    exists|i: int| 0 <= i < entries.len() && (#[trigger] entries[i]).0 == key
}

/// The place of the entry that has the key.
pub open spec fn key_index(entries: Seq<(Seq<char>, u64)>, key: Seq<char>) -> int {
    choose|i: int| 0 <= i < entries.len() && (#[trigger] entries[i]).0 == key
}

/// The count that stands with the key, and 0 where no entry has the key.
pub open spec fn count_of(entries: Seq<(Seq<char>, u64)>, key: Seq<char>) -> u64 {
    if has_key(entries, key) {
        entries[key_index(entries, key)].1
    } else {
        0
    }
}

/// The sum of two counts, held at the largest count there is.
pub open spec fn capped_sum(a: u64, b: u64) -> u64 {
    if a + b > u64::MAX {
        u64::MAX
    } else {
        (a + b) as u64
    }
}

/// The entries after `amount` was added to the count of `key`: an entry
/// that has the key keeps its place, a new key is entered last.
pub open spec fn credited(
    entries: Seq<(Seq<char>, u64)>,
    key: Seq<char>,
    amount: u64,
) -> Seq<(Seq<char>, u64)> {
    if has_key(entries, key) {
        entries.update(
            key_index(entries, key),
            (key, capped_sum(entries[key_index(entries, key)].1, amount)),
        )
    } else {
        entries.push((key, amount))
    }
}

/// The line of one entry in the summary of a contest.
pub open spec fn summary_line(entry: (Seq<char>, u64)) -> Seq<char> {
    decimal(entry.1 as nat) + " AC: "@ + entry.0 + "\n"@
}

/// The summary of a contest: the lines of the entries, one after another.
pub open spec fn summary_text(ranked: Seq<(Seq<char>, u64)>) -> Seq<char>
    decreases ranked.len(),
{
    if ranked.len() == 0 {
        Seq::<char>::empty()
    } else {
        summary_text(ranked.drop_last()) + summary_line(ranked.last())
    }
}

/// Writes the summary of a contest from its ranking: for each entry a line
/// with the count, the letters AC and the participant.
pub fn render_summary(ranked: &Vec<(String, u64)>) -> (text: String)
    ensures
        text@ == summary_text(ranked.deep_view()),
{
    let mut text: String = String::new();
    let mut i: usize = 0;
    proof {
        assert(ranked.deep_view().take(0) =~= Seq::<(Seq<char>, u64)>::empty());
    }
    while i < ranked.len()
        invariant
            i <= ranked.len(),
            text@ == summary_text(ranked.deep_view().take(i as int)),
        decreases ranked.len() - i,
    {
        let ghost done = ranked.deep_view().take(i as int);
        let ghost before = text@;
        let count = decimal_text(ranked[i].1);
        text.append(count.as_str());
        text.append(" AC: ");
        text.append(ranked[i].0.as_str());
        text.append("\n");
        proof {
            let next = ranked.deep_view().take(i + 1);
            assert(next.drop_last() =~= done);
            assert(next.last() == (ranked@[i as int].0@, ranked@[i as int].1));
            assert(text@ =~= before + summary_line(next.last()));
        }
        i += 1;
    }
    proof {
        assert(ranked.deep_view().take(i as int) =~= ranked.deep_view());
    }
    text
}

/// The results of a contest.
pub struct ContestResults {
    map: IndexMap<String, u64>,
}

impl View for ContestResults {
    type V = Seq<(Seq<char>, u64)>;

    closed spec fn view(&self) -> Seq<(Seq<char>, u64)> {
        entries(self.map)
    }
}

impl ContestResults {
    /// No participant is entered twice.
    pub open spec fn wf(&self) -> bool {
        distinct_keys(self@)
    }

    /// Results without an entry.
    pub fn new() -> (results: ContestResults)
        ensures
            results.wf(),
            results@.len() == 0,
    {
        ContestResults { map: map_new() }
    }

    /// The entries, in the order in which their keys were first entered.
    pub fn entries(&self) -> (pairs: Vec<(String, u64)>)
        ensures
            pairs.deep_view() == self@,
    {
        map_entries(&self.map)
    }

    /// The number of entries.
    pub fn len(&self) -> (n: usize)
        ensures
            n == self@.len(),
    {
        map_len(&self.map)
    }

    /// The count that stands with a key, if an entry has the key.
    pub fn get(&self, key: &str) -> (count: Option<u64>)
        requires
            self.wf(),
        ensures
            count is Some <==> has_key(self@, key@),
            count matches Some(c) ==> c == count_of(self@, key@),
    {
        let count = map_get(&self.map, key);
        proof {
            if has_key(self@, key@) {
                let i = key_index(self@, key@);
                assert(self@[i].0 == key@);
            }
        }
        count
    }

    /// Adds `amount` to the count of `key`. A key that has no entry yet is
    /// entered last, with `amount` for its count. A count stops at the
    /// largest number there is.
    pub fn add(&mut self, key: &str, amount: u64)
        requires
            old(self).wf(),
        ensures
            final(self).wf(),
            final(self)@ == credited(old(self)@, key@, amount),
    {
        let ghost before = self@;
        let total: u64 = match map_get(&self.map, key) {
            Some(count) => count.saturating_add(amount),
            None => amount,
        };
        proof {
            if has_key(before, key@) {
                let i = key_index(before, key@);
                assert(before[i].0 == key@);
            }
        }
        map_insert(&mut self.map, String::from_str(key), total);
        proof {
            let after = self@;
            if has_key(before, key@) {
                let i = key_index(before, key@);
                assert(before[i].0 == key@);
                assert(after == before.update(i, (key@, total)));
                assert forall|a: int, b: int| 0 <= a < b < after.len() implies (#[trigger] after[a]).0
                    != (#[trigger] after[b]).0 by {
                    assert(before[a].0 != before[b].0);
                }
            } else {
                assert(after == before.push((key@, total)));
                assert forall|a: int, b: int| 0 <= a < b < after.len() implies (#[trigger] after[a]).0
                    != (#[trigger] after[b]).0 by {
                    if b < before.len() {
                        assert(before[a].0 != before[b].0);
                    } else {
                        assert(before[a].0 != key@);
                    }
                }
            }
        }
    }

    /// Forgets every entry.
    pub fn reset(&mut self)
        ensures
            final(self).wf(),
            final(self)@.len() == 0,
    {
        self.map = map_new();
    }

    /// The entries in ranked order: the highest count first, and among
    /// equal counts whoever was entered first.
    pub fn ranking(&self) -> (ranked: Vec<(String, u64)>)
        ensures
            is_ranking_of(ranked.deep_view(), self@),
    {
        sorted_by_count(map_entries(&self.map))
    }

    /// The summary of the contest: the ranking, a line for each entry.
    pub fn aggregates(&self) -> (text: String)
        ensures
            exists|ranked: Seq<(Seq<char>, u64)>|
                is_ranking_of(ranked, self@) && text@ == summary_text(ranked),
    {
        let ranked = self.ranking();
        render_summary(&ranked)
    }
}

} // verus!
