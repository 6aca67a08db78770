//! How a guess is judged against the answer of a puzzle.

use crate::dictionary::Dictionary;
use crate::order::str_equal;
use crate::signature::{signature, signature_of};
use vstd::prelude::*;
use vstd::string::*;

verus! {

/// The lower-case form of a text, as `str::to_lowercase` of the standard
/// library gives it. The case mappings are tables of the Unicode standard
/// and are not restated here.
pub uninterp spec fn lowercase_of(text: Seq<char>) -> Seq<char>;

/// Calls `str::to_lowercase`. Trusted: the text that comes back is the one
/// `lowercase_of` names.
#[verifier::external_body]
pub(crate) fn to_lowercase(text: &str) -> (lower: String)
    ensures
        lower@ == lowercase_of(text@),
{
    text.to_lowercase()
}

/// What a guess turned out to be.
#[derive(Clone, Copy, Debug, PartialEq, Eq, Hash, Structural)]
pub enum CheckResult {
    /// The letters of the guess are not those of the answer.
    WrongAnswer,
    /// The guess is the answer that was meant.
    Assumed,
    /// The guess is another word of the dictionary with the same letters.
    RecognizedAnagram,
    /// The guess has the letters of the answer but is no word of the
    /// dictionary; it is accepted all the same.
    UnlistedButValid,
}

impl CheckResult {
    /// Every result but a wrong answer counts as correct.
    pub open spec fn correct(self) -> bool {
        self != CheckResult::WrongAnswer
    }

    /// Whether the guess counts as correct.
    pub fn is_correct(self) -> (correct: bool)
        ensures
            correct == self.correct(),
    {
        match self {
            CheckResult::WrongAnswer => false,
            _ => true,
        }
    }
}

/// The result that follows from the three facts that decide it, asked in
/// this order: do the signatures agree, do the lower-case forms agree, is
/// the guess a word of the dictionary.
pub open spec fn verdict(same_signature: bool, same_lowercase: bool, listed: bool) -> CheckResult {
    if !same_signature {
        CheckResult::WrongAnswer
    } else if same_lowercase {
        CheckResult::Assumed
    } else if listed {
        CheckResult::RecognizedAnagram
    } else {
        CheckResult::UnlistedButValid
    }
}

/// The result of a guess against an answer, with the words of the
/// answer's language.
pub open spec fn classification(
    guess: Seq<char>,
    answer: Seq<char>,
    words: Seq<Seq<char>>,
) -> CheckResult {
    verdict(
        signature_of(guess) == signature_of(answer),
        lowercase_of(guess) == lowercase_of(answer),
        words.contains(guess),
    )
}

/// Judges a guess from the signatures and lower-case forms of guess and
/// answer, and from whether the guess is a word of the dictionary.
pub fn judge(
    guess_signature: &str,
    answer_signature: &str,
    guess_lowercase: &str,
    answer_lowercase: &str,
    listed: bool,
) -> (result: CheckResult)
    ensures
        result == verdict(
            guess_signature@ == answer_signature@,
            guess_lowercase@ == answer_lowercase@,
            listed,
        ),
{
    if !str_equal(guess_signature, answer_signature) {
        CheckResult::WrongAnswer
    } else if str_equal(guess_lowercase, answer_lowercase) {
        CheckResult::Assumed
    } else if listed {
        CheckResult::RecognizedAnagram
    } else {
        CheckResult::UnlistedButValid
    }
}

/// Judges a guess against the answer of a puzzle, with the dictionary of
/// the puzzle's language.
pub fn classify(guess: &str, answer: &str, dictionary: &Dictionary) -> (result: CheckResult)
    ensures
        result == classification(guess@, answer@, dictionary@),
{
    let guess_signature = signature(guess);
    let answer_signature = signature(answer);
    let guess_lowercase = to_lowercase(guess);
    let answer_lowercase = to_lowercase(answer);
    let listed = dictionary.contains(guess);
    judge(
        guess_signature.as_str(),
        answer_signature.as_str(),
        guess_lowercase.as_str(),
        answer_lowercase.as_str(),
        listed,
    )
}

/// A guess is wrong exactly when its signature is not that of the answer.
/// It is the assumed answer exactly when the signatures agree and the
/// lower-case forms agree. Every other guess is a recognized anagram when
/// it is a word of the dictionary, and unlisted but valid when it is not.
pub proof fn classification_cases(guess: Seq<char>, answer: Seq<char>, words: Seq<Seq<char>>)
    ensures
        classification(guess, answer, words) is WrongAnswer <==> signature_of(guess)
            != signature_of(answer),
        classification(guess, answer, words) is Assumed <==> signature_of(guess) == signature_of(
            answer,
        ) && lowercase_of(guess) == lowercase_of(answer),
        classification(guess, answer, words) is RecognizedAnagram <==> signature_of(guess)
            == signature_of(answer) && lowercase_of(guess) != lowercase_of(answer)
            && words.contains(guess),
        classification(guess, answer, words) is UnlistedButValid <==> signature_of(guess)
            == signature_of(answer) && lowercase_of(guess) != lowercase_of(answer)
            && !words.contains(guess),
{
}

} // verus!
