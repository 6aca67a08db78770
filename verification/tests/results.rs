use nazonazo::decimal::decimal_text;
use nazonazo::ranking::by_count_descending;
use nazonazo::results::{render_summary, ContestResults};
use std::cmp::Ordering;

fn pair(name: &str, count: u64) -> (String, u64) {
    (name.to_string(), count)
}

#[test]
fn new_results_are_empty() {
    let results = ContestResults::new();
    assert_eq!(results.len(), 0);
    assert_eq!(results.entries(), vec![]);
    assert_eq!(results.get("alice"), None);
    assert_eq!(results.aggregates(), "");
}

#[test]
fn add_enters_a_new_key_last_and_keeps_the_place_of_an_old_one() {
    let mut results = ContestResults::new();
    results.add("bob", 1);
    results.add("alice", 1);
    results.add("bob", 1);
    results.add("carol", 5);
    assert_eq!(results.entries(), vec![pair("bob", 2), pair("alice", 1), pair("carol", 5)]);
    assert_eq!(results.get("bob"), Some(2));
    assert_eq!(results.get("carol"), Some(5));
    assert_eq!(results.get("dave"), None);
    assert_eq!(results.len(), 3);
}

#[test]
fn a_count_stops_at_the_largest_number() {
    let mut results = ContestResults::new();
    results.add("alice", u64::MAX - 1);
    results.add("alice", 1);
    assert_eq!(results.get("alice"), Some(u64::MAX));
    results.add("alice", 7);
    assert_eq!(results.get("alice"), Some(u64::MAX));
}

#[test]
fn ranking_is_by_count_and_then_by_entry() {
    let mut results = ContestResults::new();
    results.add("dave", 1);
    results.add("alice", 3);
    results.add("carol", 1);
    results.add("bob", 3);
    results.add("erin", 2);
    assert_eq!(
        results.ranking(),
        vec![pair("alice", 3), pair("bob", 3), pair("erin", 2), pair("dave", 1), pair("carol", 1)]
    );
    // The entries themselves stay in the order in which they were entered.
    assert_eq!(results.entries()[0], pair("dave", 1));
}

#[test]
fn the_summary_has_a_line_for_each_entry() {
    let mut results = ContestResults::new();
    results.add("alice", 1);
    results.add("bob", 12);
    assert_eq!(results.aggregates(), "12 AC: bob\n1 AC: alice\n");
    assert_eq!(render_summary(&vec![pair("x", 0), pair("y z", 205)]), "0 AC: x\n205 AC: y z\n");
}

#[test]
fn reset_forgets_every_entry() {
    let mut results = ContestResults::new();
    results.add("alice", 1);
    results.reset();
    assert_eq!(results.len(), 0);
    assert_eq!(results.get("alice"), None);
}

#[test]
fn the_higher_count_comes_first() {
    assert_eq!(by_count_descending(&pair("a", 2), &pair("b", 1)), Ordering::Less);
    assert_eq!(by_count_descending(&pair("a", 1), &pair("b", 2)), Ordering::Greater);
    assert_eq!(by_count_descending(&pair("a", 1), &pair("b", 1)), Ordering::Equal);
}

#[test]
fn numbers_in_decimal() {
    assert_eq!(decimal_text(0), "0");
    assert_eq!(decimal_text(7), "7");
    assert_eq!(decimal_text(10), "10");
    assert_eq!(decimal_text(1234567890), "1234567890");
    assert_eq!(decimal_text(u64::MAX), "18446744073709551615");
}
