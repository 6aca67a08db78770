//! The state of the quiz: whether a puzzle is out, and of which kind.

use crate::dictionary::Dictionary;
use crate::judge::{classification, classify, CheckResult};
use crate::lang::Lang;
use vstd::prelude::*;
use vstd::string::*;

verus! {

/// The state of the quiz. Times are counted in whole units from a start
/// that the caller fixes.
#[derive(Debug, PartialEq, Eq)]
pub enum Status {
    /// No puzzle is out.
    StandingBy,
    /// A single question is out.
    Holding { answer: String, lang: Lang, started_at: u64 },
    /// A round of a contest is out: round `round` of `total`.
    Contesting { answer: String, lang: Lang, round: u32, total: u32, started_at: u64 },
}

/// A state of the quiz as a plain value.
pub enum StatusView {
    StandingBy,
    Holding { answer: Seq<char>, lang: Lang, started_at: u64 },
    Contesting { answer: Seq<char>, lang: Lang, round: u32, total: u32, started_at: u64 },
}

impl View for Status {
    type V = StatusView;

    open spec fn view(&self) -> StatusView {
        match self {
            Status::StandingBy => StatusView::StandingBy,
            Status::Holding { answer, lang, started_at } => StatusView::Holding {
                answer: answer@,
                lang: *lang,
                started_at: *started_at,
            },
            Status::Contesting { answer, lang, round, total, started_at } => StatusView::Contesting {
                answer: answer@,
                lang: *lang,
                round: *round,
                total: *total,
                started_at: *started_at,
            },
        }
    }
}

/// The time from `started_at` to `now`, and none where the clock went back.
pub open spec fn time_between(started_at: u64, now: u64) -> u64 {
    if now >= started_at {
        (now - started_at) as u64
    } else {
        0
    }
}

impl StatusView {
    /// The rounds of a contest are counted from 1 up to their total.
    pub open spec fn wf(self) -> bool {
        self matches StatusView::Contesting { round, total, .. } ==> 1 <= round <= total
    }

    /// The answer of the puzzle that is out.
    pub open spec fn answer(self) -> Option<Seq<char>> {
        match self {
            StatusView::StandingBy => None,
            StatusView::Holding { answer, .. } => Some(answer),
            StatusView::Contesting { answer, .. } => Some(answer),
        }
    }

    /// The language of the puzzle that is out.
    pub open spec fn lang(self) -> Option<Lang> {
        match self {
            StatusView::StandingBy => None,
            StatusView::Holding { lang, .. } => Some(lang),
            StatusView::Contesting { lang, .. } => Some(lang),
        }
    }

    /// The time since the puzzle that is out was set.
    pub open spec fn elapsed(self, now: u64) -> Option<u64> {
        match self {
            StatusView::StandingBy => None,
            StatusView::Holding { started_at, .. } => Some(time_between(started_at, now)),
            StatusView::Contesting { started_at, .. } => Some(time_between(started_at, now)),
        }
    }

    /// The round that is out and the number of rounds of the contest.
    pub open spec fn contest_num(self) -> Option<(u32, u32)> {
        match self {
            StatusView::Contesting { round, total, .. } => Some((round, total)),
            _ => None,
        }
    }

    /// The last round of a contest is out.
    pub open spec fn contest_end(self) -> bool {
        self matches StatusView::Contesting { round, total, .. } && round == total
    }

    /// The result of a guess in this state: wrong where no puzzle is out.
    pub open spec fn check(self, guess: Seq<char>, words: Seq<Seq<char>>) -> CheckResult {
        match self.answer() {
            None => CheckResult::WrongAnswer,
            Some(answer) => classification(guess, answer, words),
        }
    }
}

impl Status {
    /// The rounds of a contest are counted from 1 up to their total.
    pub open spec fn wf(&self) -> bool {
        self@.wf()
    }

    /// Whether no puzzle is out.
    pub fn is_standing_by(&self) -> (r: bool)
        ensures
            r == (self@ is StandingBy),
    {
        match self {
            Status::StandingBy => true,
            _ => false,
        }
    }

    /// Whether a single question is out.
    pub fn is_holding(&self) -> (r: bool)
        ensures
            r == (self@ is Holding),
    {
        match self {
            Status::Holding { .. } => true,
            _ => false,
        }
    }

    /// Whether a round of a contest is out.
    pub fn is_contesting(&self) -> (r: bool)
        ensures
            r == (self@ is Contesting),
    {
        match self {
            Status::Contesting { .. } => true,
            _ => false,
        }
    }

    /// The answer of the puzzle that is out.
    pub fn ans(&self) -> (answer: Option<&String>)
        ensures
            answer is Some <==> self@.answer() is Some,
            answer matches Some(a) ==> self@.answer() == Some(a@),
    {
        match self {
            Status::StandingBy => None,
            Status::Holding { answer, .. } => Some(answer),
            Status::Contesting { answer, .. } => Some(answer),
        }
    }

    /// The language of the puzzle that is out.
    pub fn lang(&self) -> (lang: Option<Lang>)
        ensures
            lang == self@.lang(),
    {
        match self {
            Status::StandingBy => None,
            Status::Holding { lang, .. } => Some(*lang),
            Status::Contesting { lang, .. } => Some(*lang),
        }
    }

    /// The time since the puzzle that is out was set.
    pub fn elapsed(&self, now: u64) -> (elapsed: Option<u64>)
        ensures
            elapsed == self@.elapsed(now),
    {
        match self {
            Status::StandingBy => None,
            Status::Holding { started_at, .. } => Some(
                if now >= *started_at {
                    now - *started_at
                } else {
                    0
                },
            ),
            Status::Contesting { started_at, .. } => Some(
                if now >= *started_at {
                    now - *started_at
                } else {
                    0
                },
            ),
        }
    }

    /// The round that is out and the number of rounds of the contest.
    pub fn get_contest_num(&self) -> (num: Option<(u32, u32)>)
        ensures
            num == self@.contest_num(),
    {
        match self {
            Status::Contesting { round, total, .. } => Some((*round, *total)),
            _ => None,
        }
    }

    /// Whether the last round of a contest is out.
    pub fn is_contest_end(&self) -> (end: bool)
        ensures
            end == self@.contest_end(),
    {
        match self {
            Status::Contesting { round, total, .. } => *round == *total,
            _ => false,
        }
    }

    /// Judges a guess against the puzzle that is out, with the dictionary
    /// of the puzzle's language. Where no puzzle is out every guess is
    /// wrong.
    pub fn answer_check(&self, guess: &str, dictionary: &Dictionary) -> (result: CheckResult)
        ensures
            result == self@.check(guess@, dictionary@),
    {
        match self {
            Status::StandingBy => CheckResult::WrongAnswer,
            Status::Holding { answer, .. } => classify(guess, answer.as_str(), dictionary),
            Status::Contesting { answer, .. } => classify(guess, answer.as_str(), dictionary),
        }
    }
}

} // verus!
