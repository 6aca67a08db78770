use nazonazo::dictionary::Dictionary;
use nazonazo::judge::{classify, judge, CheckResult};

fn dictionary(words: &[&str]) -> Dictionary {
    Dictionary::new(words.iter().map(|s| s.to_string()).collect()).unwrap()
}

#[test]
fn the_answer_itself_is_assumed() {
    let words = dictionary(&["cat", "act"]);
    assert_eq!(classify("cat", "cat", &words), CheckResult::Assumed);
}

#[test]
fn an_anagram_outside_the_dictionary_is_unlisted_but_valid() {
    let words = dictionary(&["cat", "act"]);
    assert_eq!(classify("tac", "cat", &words), CheckResult::UnlistedButValid);
}

#[test]
fn an_anagram_in_the_dictionary_is_recognized() {
    let words = dictionary(&["cat", "act"]);
    assert_eq!(classify("act", "cat", &words), CheckResult::RecognizedAnagram);
}

#[test]
fn other_letters_are_a_wrong_answer() {
    let words = dictionary(&["cat", "act", "dog"]);
    assert_eq!(classify("dog", "cat", &words), CheckResult::WrongAnswer);
    assert_eq!(classify("ca", "cat", &words), CheckResult::WrongAnswer);
    assert_eq!(classify("catt", "cat", &words), CheckResult::WrongAnswer);
}

#[test]
fn a_guess_that_differs_in_case_only_is_assumed_when_the_letters_sort_alike() {
    // Both have the signature "Aa", and both are "aa" in lower case.
    let words = dictionary(&["aA"]);
    assert_eq!(classify("Aa", "aA", &words), CheckResult::Assumed);
}

#[test]
fn a_guess_in_another_case_is_wrong_when_its_signature_differs() {
    // "Cat" sorts to "Cat", "cat" to "act".
    let words = dictionary(&["cat"]);
    assert_eq!(classify("Cat", "cat", &words), CheckResult::WrongAnswer);
}

#[test]
fn judge_asks_signature_then_case_then_dictionary() {
    assert_eq!(judge("act", "act", "cat", "cat", false), CheckResult::Assumed);
    assert_eq!(judge("act", "act", "cat", "cat", true), CheckResult::Assumed);
    assert_eq!(judge("act", "act", "tac", "cat", true), CheckResult::RecognizedAnagram);
    assert_eq!(judge("act", "act", "tac", "cat", false), CheckResult::UnlistedButValid);
    assert_eq!(judge("dgo", "act", "cat", "cat", true), CheckResult::WrongAnswer);
    assert_eq!(judge("dgo", "act", "dog", "cat", false), CheckResult::WrongAnswer);
}

#[test]
fn every_result_but_a_wrong_answer_is_correct() {
    assert!(!CheckResult::WrongAnswer.is_correct());
    assert!(CheckResult::Assumed.is_correct());
    assert!(CheckResult::RecognizedAnagram.is_correct());
    assert!(CheckResult::UnlistedButValid.is_correct());
}
