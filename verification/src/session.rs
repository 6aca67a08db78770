//! The quiz as a whole: the state of the quiz, the results of the contest
//! that is running and the languages it draws from, and the steps that
//! lead from one state to the next.

use crate::chance::sample_positions;
use crate::dictionary::{Library, Puzzle};
use crate::hint::{
    first_clusters, first_part, masked, places, reveal_at, rule, ruling, Hint, HintRuling,
};
use crate::judge::CheckResult;
use crate::lang::{ascending_languages, Lang, LanguageSet};
use crate::ranking::is_ranking_of;
use crate::results::{credited, distinct_keys, ContestResults};
use crate::signature::{grapheme_clusters, graphemes, join_all, signature_of};
use crate::status::{Status, StatusView};
use vstd::prelude::*;
use vstd::string::*;

verus! {

/// The key under which a contest adds up the time of the rounds that were
/// given up.
pub open spec fn giveup_key() -> Seq<char> {
    "~giveup"@
}

/// The quiz: its state, the results of the contest that is running, and
/// the languages of that contest.
pub struct Session {
    status: Status,
    results: ContestResults,
    languages: LanguageSet,
}

/// A quiz as a plain value.
pub struct SessionView {
    pub status: StatusView,
    pub results: Seq<(Seq<char>, u64)>,
    pub languages: Seq<Lang>,
}

impl View for Session {
    type V = SessionView;

    closed spec fn view(&self) -> SessionView {
        SessionView { status: self.status@, results: self.results@, languages: self.languages@ }
    }
}

impl SessionView {
    /// The state is well formed, no participant is entered twice, no
    /// language stands twice, results exist only while a contest runs, and
    /// a running contest has a language to draw from.
    pub open spec fn wf(self) -> bool {
        &&& self.status.wf()
        &&& distinct_keys(self.results)
        &&& ascending_languages(self.languages)
        &&& self.status is Contesting ==> self.languages.len() > 0
        &&& !(self.status is Contesting) ==> self.results.len() == 0
    }

    /// The quiz with another state, and all else as it is.
    pub open spec fn with_status(self, status: StatusView) -> SessionView {
        SessionView { status: status, ..self }
    }

    /// The quiz with no puzzle out and no results.
    pub open spec fn at_rest(self) -> SessionView {
        SessionView {
            status: StatusView::StandingBy,
            results: Seq::empty(),
            languages: self.languages,
        }
    }
}

/// The state in which a single question is out.
pub open spec fn holding(answer: Seq<char>, lang: Lang, started_at: u64) -> StatusView {
    StatusView::Holding { answer: answer, lang: lang, started_at: started_at }
}

/// The state in which a round of a contest is out.
pub open spec fn contesting(
    answer: Seq<char>,
    lang: Lang,
    round: u32,
    total: u32,
    started_at: u64,
) -> StatusView {
    StatusView::Contesting {
        answer: answer,
        lang: lang,
        round: round,
        total: total,
        started_at: started_at,
    }
}

/// The puzzle is one that the library can hand out for these languages:
/// its language is one of them, its answer is a word of that language, and
/// its signature is that of its answer.
pub open spec fn fair_draw(puzzle: Puzzle, library: Library, languages: Seq<Lang>) -> bool {
    &&& languages.contains(puzzle.lang)
    &&& library.words(puzzle.lang).contains(puzzle.answer@)
    &&& puzzle.signature@ == signature_of(puzzle.answer@)
}

/// What follows when the puzzle that is out has been closed.
#[derive(Debug, PartialEq, Eq)]
pub enum RoundEnd {
    /// A single question was closed: no puzzle is out.
    Rest,
    /// The contest goes on with a new puzzle, in the round `round` of `total`.
    NextRound { next: Puzzle, round: u32, total: u32 },
    /// The last round was closed: the contest of `total` rounds is over,
    /// with this ranking.
    ContestEnd { total: u32, ranking: Vec<(String, u64)> },
}

/// `post` is the quiz after the puzzle that was out in `pre` has been closed
/// at time `now`, with `amount` added to the count of `key` if a contest
/// is running, and `then` says what followed. A single question leaves the
/// quiz at rest. A round before the last is followed by the next round,
/// with a puzzle drawn for one of the languages of the contest. The last
/// round ends the contest: `then` holds the ranking of the results, and the
/// quiz is at rest with its results cleared.
pub open spec fn round_closed(
    pre: SessionView,
    post: SessionView,
    then: RoundEnd,
    key: Seq<char>,
    amount: u64,
    now: u64,
    library: Library,
) -> bool {
    match pre.status {
        StatusView::StandingBy => false,
        StatusView::Holding { .. } => then is Rest && post == pre.at_rest(),
        StatusView::Contesting { round, total, .. } => {
            let scored = credited(pre.results, key, amount);
            if round < total {
                &&& then matches RoundEnd::NextRound { next, round: r, total: t }
                &&& r == round + 1
                &&& t == total
                &&& fair_draw(next, library, pre.languages)
                &&& post == SessionView {
                    status: contesting(next.answer@, next.lang, r, total, now),
                    results: scored,
                    languages: pre.languages,
                }
            } else {
                &&& then matches RoundEnd::ContestEnd { total: t, ranking }
                &&& t == total
                &&& is_ranking_of(ranking.deep_view(), scored)
                &&& post == pre.at_rest()
            }
        },
    }
}

/// `post` follows `pre` by the closing of a round, whoever closed it and
/// whenever.
pub open spec fn closes_to(pre: SessionView, post: SessionView, library: Library) -> bool {
    exists|then: RoundEnd, key: Seq<char>, amount: u64, now: u64|
        round_closed(pre, post, then, key, amount, now, library)
}

/// A contest runs its rounds in turn: from the first round of `total`, the
/// closing of `k` rounds one after another leads to round `k + 1` while
/// rounds are left, and after `total` rounds the quiz is at rest with its
/// results cleared.
pub proof fn contest_runs_its_rounds(
    states: Seq<SessionView>,
    library: Library,
    total: u32,
    k: int,
)
    requires
        0 <= k < states.len(),
        k <= total,
        states[0].wf(),
        states[0].status matches StatusView::Contesting { round, total: t, .. } && round == 1 && t
            == total,
        forall|i: int|
            0 <= i < states.len() - 1 ==> closes_to(#[trigger] states[i], states[i + 1], library),
    ensures
        k < total ==> (states[k].status matches StatusView::Contesting { round, total: t, .. }
            && round == k + 1 && t == total),
        k == total ==> states[k].status is StandingBy && states[k].results.len() == 0,
    decreases k,
{
    if k > 0 {
        contest_runs_its_rounds(states, library, total, k - 1);
        assert(closes_to(states[k - 1], states[k - 1 + 1], library));
    }
}

/// What became of giving up.
#[derive(Debug, PartialEq, Eq)]
pub enum GiveupOutcome {
    /// No puzzle was out.
    NoPuzzle,
    /// The answer is revealed, and `then` says what follows.
    Revealed { answer: String, then: RoundEnd },
}

/// `post` and `outcome` are what giving up at time `now` makes of `pre`:
/// nothing where no puzzle is out; otherwise the answer is revealed and the
/// puzzle closed, and a contest adds the time since the round began to the
/// count kept under the give-up key.
pub open spec fn gave_up(
    pre: SessionView,
    post: SessionView,
    outcome: GiveupOutcome,
    now: u64,
    library: Library,
) -> bool {
    match pre.status.answer() {
        None => outcome is NoPuzzle && post == pre,
        Some(answer) => {
            &&& outcome matches GiveupOutcome::Revealed { answer: revealed, then }
            &&& revealed@ == answer
            &&& round_closed(
                pre,
                post,
                then,
                giveup_key(),
                pre.status.elapsed(now)->0,
                now,
                library,
            )
        },
    }
}

/// What became of a guess.
#[derive(Debug, PartialEq, Eq)]
pub enum AnswerOutcome {
    /// The guess was wrong, or no puzzle was out.
    Wrong,
    /// The guess was correct: `result` says in which way, `answer` is the
    /// answer that was meant, and `then` says what follows.
    Correct { result: CheckResult, answer: String, then: RoundEnd },
}

/// `post` and `outcome` are what the guess of a participant at time `now`
/// makes of `pre`. A guess that is wrong, or that meets no puzzle, changes
/// nothing. A correct guess closes the puzzle, and a contest adds 1 to the
/// count of the participant.
pub open spec fn answered(
    pre: SessionView,
    post: SessionView,
    outcome: AnswerOutcome,
    participant: Seq<char>,
    guess: Seq<char>,
    now: u64,
    library: Library,
) -> bool {
    let result = pre.status.check(guess, library.words(pre.status.lang()->0));
    if pre.status.answer() is Some && result.correct() {
        &&& outcome matches AnswerOutcome::Correct { result: r, answer, then }
        &&& r == result
        &&& answer@ == pre.status.answer()->0
        &&& round_closed(pre, post, then, participant, 1, now, library)
    } else {
        outcome is Wrong && post == pre
    }
}

/// What became of a request to start a contest.
#[derive(Debug, PartialEq, Eq)]
pub enum ContestStart {
    /// A puzzle is out already.
    Busy,
    /// Refused: a contest has at least one round.
    NoRounds,
    /// Refused: a contest needs a language.
    NoLanguages,
    /// The contest began with this puzzle.
    Started(Puzzle),
}

/// What became of a request for a hint.
#[derive(Debug, PartialEq, Eq)]
pub enum HintOutcome {
    /// No puzzle was out.
    NoPuzzle,
    /// Refused: a hint of no cluster is no hint.
    Zero,
    /// Refused: the answer has fewer clusters than were asked for.
    TooLong,
    /// The hint would have given the answer away, so the puzzle was given up.
    GaveUp(GiveupOutcome),
    /// The first `amount` clusters of the answer.
    First { amount: usize, text: String },
    /// The answer with `amount` of its clusters shown and the others masked.
    Random { amount: usize, text: String },
}

/// The positions are `amount` different places of an answer of `length`
/// clusters.
pub open spec fn fair_sample(positions: Seq<usize>, length: nat, amount: nat) -> bool {
    &&& positions.len() == amount
    &&& positions.no_duplicates()
    &&& forall|k: int| 0 <= k < positions.len() ==> positions[k] < length
}

/// `text` is a hint that answers `request` on an answer of these clusters.
pub open spec fn hint_shows(
    outcome: HintOutcome,
    request: Hint,
    clusters: Seq<Seq<char>>,
) -> bool {
    match request {
        Hint::First(n) => {
            &&& outcome matches HintOutcome::First { amount, text }
            &&& amount == n
            &&& text@ == first_part(clusters, n as nat).flatten()
        },
        Hint::Random(n) => {
            &&& outcome matches HintOutcome::Random { amount, text }
            &&& amount == n
            &&& exists|positions: Seq<usize>|
                fair_sample(positions, clusters.len(), n as nat) && text@ == masked(
                    clusters,
                    places(positions),
                ).flatten()
        },
    }
}

/// `post` and `outcome` are what a request for a hint at time `now` makes
/// of `pre`. Only a hint that counts as giving up changes the quiz.
pub open spec fn hinted(
    pre: SessionView,
    post: SessionView,
    outcome: HintOutcome,
    request: Hint,
    now: u64,
    library: Library,
) -> bool {
    match pre.status.answer() {
        None => outcome is NoPuzzle && post == pre,
        Some(answer) => match ruling(
            request.amount() as nat,
            grapheme_clusters(answer).len(),
        ) {
            HintRuling::Zero => outcome is Zero && post == pre,
            HintRuling::TooLong => outcome is TooLong && post == pre,
            HintRuling::GiveUp => {
                &&& outcome matches HintOutcome::GaveUp(given_up)
                &&& gave_up(pre, post, given_up, now, library)
            },
            HintRuling::Reveal => {
                &&& post == pre
                &&& hint_shows(outcome, request, grapheme_clusters(answer))
            },
        },
    }
}

/// The text of a hint that shows the first `n` clusters of an answer.
pub fn first_hint(clusters: &Vec<String>, n: usize) -> (text: String)
    ensures
        text@ == first_part(clusters.deep_view(), n as nat).flatten(),
{
    let shown = first_clusters(clusters, n);
    join_all(&shown)
}

/// The text of a hint that shows the clusters of an answer at the given
/// positions and masks the others.
pub fn random_hint(clusters: &Vec<String>, positions: &Vec<usize>) -> (text: String)
    ensures
        text@ == masked(clusters.deep_view(), places(positions@)).flatten(),
{
    let shown = reveal_at(clusters, positions);
    join_all(&shown)
}

impl Session {
    /// See `SessionView::wf`.
    pub open spec fn wf(&self) -> bool {
        self@.wf()
    }

    /// A quiz at rest: no puzzle, no results, no languages.
    pub fn new() -> (session: Session)
        ensures
            session.wf(),
            session@.status is StandingBy,
            session@.results.len() == 0,
            session@.languages.len() == 0,
    {
        Session {
            status: Status::StandingBy,
            results: ContestResults::new(),
            languages: LanguageSet::empty(),
        }
    }

    /// The state of the quiz.
    pub fn status(&self) -> (status: &Status)
        ensures
            status@ == self@.status,
    {
        &self.status
    }

    /// The results of the contest that is running.
    pub fn results(&self) -> (results: &ContestResults)
        ensures
            results@ == self@.results,
    {
        &self.results
    }

    /// The languages of the contest.
    pub fn languages(&self) -> (languages: &LanguageSet)
        ensures
            languages@ == self@.languages,
    {
        &self.languages
    }
}

/// Draws a puzzle for a contest: a language of the set at random, then a
/// word of that language.
pub fn draw_puzzle(library: &Library, languages: &LanguageSet) -> (puzzle: Puzzle)
    requires
        library.wf(),
        languages@.len() > 0,
    ensures
        fair_draw(puzzle, *library, languages@),
{
    let lang = languages.select();
    library.prob(lang)
}

impl Session {
    /// Sets a single question with the given answer, at time `now`. The
    /// request is dropped where a puzzle is out already.
    pub fn hold(&mut self, answer: String, lang: Lang, now: u64) -> (accepted: bool)
        requires
            old(self).wf(),
        ensures
            final(self).wf(),
            accepted == (old(self)@.status is StandingBy),
            accepted ==> final(self)@ == old(self)@.with_status(holding(answer@, lang, now)),
            !accepted ==> final(self)@ == old(self)@,
    {
        if self.status.is_standing_by() {
            self.status = Status::Holding { answer, lang, started_at: now };
            true
        } else {
            false
        }
    }

    /// Starts a single question: draws a word of the language and sets it
    /// at time `now`. The puzzle that was set comes back. The request is
    /// dropped where a puzzle is out already.
    pub fn start(&mut self, library: &Library, lang: Lang, now: u64) -> (shown: Option<Puzzle>)
        requires
            old(self).wf(),
            library.wf(),
        ensures
            final(self).wf(),
            shown is Some <==> old(self)@.status is StandingBy,
            shown is None ==> final(self)@ == old(self)@,
            shown matches Some(puzzle) ==> {
                &&& puzzle.lang == lang
                &&& library.words(lang).contains(puzzle.answer@)
                &&& puzzle.signature@ == signature_of(puzzle.answer@)
                &&& final(self)@ == old(self)@.with_status(holding(puzzle.answer@, lang, now))
            },
    {
        if !self.status.is_standing_by() {
            return None;
        }
        let puzzle = library.prob(lang);
        self.hold(puzzle.answer.clone(), lang, now);
        Some(puzzle)
    }

    /// Sets up a contest of `rounds` rounds over the given languages, with
    /// the given puzzle for its first round, at time `now`.
    pub fn begin_contest(
        &mut self,
        rounds: u32,
        languages: LanguageSet,
        answer: String,
        lang: Lang,
        now: u64,
    )
        requires
            old(self).wf(),
            old(self)@.status is StandingBy,
            rounds >= 1,
            languages.wf(),
            languages@.len() > 0,
        ensures
            final(self).wf(),
            final(self)@.status == contesting(answer@, lang, 1, rounds, now),
            final(self)@.results.len() == 0,
            final(self)@.languages == languages@,
    {
        self.languages = languages;
        self.results.reset();
        self.status = Status::Contesting { answer, lang, round: 1, total: rounds, started_at: now };
        assert(self@.results =~= Seq::empty());
    }

    /// Starts a contest of `rounds` rounds over the languages that were
    /// chosen, at time `now`: each chosen language counts once, and the
    /// first puzzle is drawn. The request is dropped where a puzzle is out
    /// already, and refused where it names no round or no language.
    pub fn contest(
        &mut self,
        library: &Library,
        rounds: u32,
        choices: &Vec<Lang>,
        now: u64,
    ) -> (started: ContestStart)
        requires
            old(self).wf(),
            library.wf(),
        ensures
            final(self).wf(),
            !(old(self)@.status is StandingBy) ==> started is Busy,
            old(self)@.status is StandingBy && rounds == 0 ==> started is NoRounds,
            old(self)@.status is StandingBy && rounds > 0 && choices@.len() == 0 ==> started
                is NoLanguages,
            old(self)@.status is StandingBy && rounds > 0 && choices@.len() > 0 ==> started
                is Started,
            !(started is Started) ==> final(self)@ == old(self)@,
            started matches ContestStart::Started(puzzle) ==> {
                &&& fair_draw(puzzle, *library, final(self)@.languages)
                &&& forall|lang: Lang|
                    final(self)@.languages.contains(lang) <==> choices@.contains(lang)
                &&& final(self)@.results.len() == 0
                &&& final(self)@.status == contesting(puzzle.answer@, puzzle.lang, 1, rounds, now)
            },
    {
        if !self.status.is_standing_by() {
            return ContestStart::Busy;
        }
        if rounds == 0 {
            return ContestStart::NoRounds;
        }
        if choices.len() == 0 {
            return ContestStart::NoLanguages;
        }
        let languages = LanguageSet::from_choices(choices);
        proof {
            assert(choices@.contains(choices@[0]));
            assert(languages@.contains(choices@[0]));
        }
        let puzzle = draw_puzzle(library, &languages);
        self.begin_contest(rounds, languages, puzzle.answer.clone(), puzzle.lang, now);
        ContestStart::Started(puzzle)
    }

    /// Stops the contest that is running, without a ranking: the quiz is at
    /// rest and the results are cleared. Nothing happens where no contest
    /// is running.
    pub fn unrated(&mut self) -> (stopped: bool)
        requires
            old(self).wf(),
        ensures
            final(self).wf(),
            stopped == (old(self)@.status is Contesting),
            stopped ==> final(self)@ == old(self)@.at_rest(),
            !stopped ==> final(self)@ == old(self)@,
    {
        if self.status.is_contesting() {
            self.status = Status::StandingBy;
            self.results.reset();
            assert(self@.results =~= Seq::empty());
            true
        } else {
            false
        }
    }

    /// Moves a contest on to its next round, with the given puzzle, at
    /// time `now`.
    pub fn contest_continue(&mut self, answer: String, lang: Lang, now: u64)
        requires
            old(self).wf(),
            old(self)@.status matches StatusView::Contesting { round, total, .. } && round < total,
        ensures
            final(self).wf(),
            final(self)@ == old(self)@.with_status(
                contesting(
                    answer@,
                    lang,
                    (old(self)@.status->Contesting_round + 1) as u32,
                    old(self)@.status->Contesting_total,
                    now,
                ),
            ),
    {
        let (round, total) = self.status.get_contest_num().unwrap();
        self.status = Status::Contesting { answer, lang, round: round + 1, total, started_at: now };
    }

    /// Closes the puzzle that is out, at time `now`. In a contest `amount`
    /// is added to the count of `key`; then the next round is drawn, or,
    /// after the last round, the ranking is made and the results cleared.
    pub fn close_round(
        &mut self,
        library: &Library,
        key: &str,
        amount: u64,
        now: u64,
    ) -> (then: RoundEnd)
        requires
            old(self).wf(),
            library.wf(),
            !(old(self)@.status is StandingBy),
        ensures
            final(self).wf(),
            round_closed(old(self)@, final(self)@, then, key@, amount, now, *library),
    {
        if self.status.is_holding() {
            self.status = Status::StandingBy;
            assert(self@.results =~= Seq::empty());
            return RoundEnd::Rest;
        }
        self.results.add(key, amount);
        let (round, total) = self.status.get_contest_num().unwrap();
        if round < total {
            let next = draw_puzzle(library, &self.languages);
            self.contest_continue(next.answer.clone(), next.lang, now);
            RoundEnd::NextRound { next, round: round + 1, total }
        } else {
            let ranking = self.results.ranking();
            self.results.reset();
            self.status = Status::StandingBy;
            assert(self@.results =~= Seq::empty());
            RoundEnd::ContestEnd { total, ranking }
        }
    }
}

impl Session {
    /// Gives up the puzzle that is out, at time `now`: the answer is
    /// revealed and the puzzle closed. A contest adds the time since the
    /// round began to the count kept under the give-up key, and goes on to
    /// its next round or ends.
    pub fn giveup(&mut self, library: &Library, now: u64) -> (outcome: GiveupOutcome)
        requires
            old(self).wf(),
            library.wf(),
        ensures
            final(self).wf(),
            gave_up(old(self)@, final(self)@, outcome, now, *library),
    {
        let answer: String = match self.status.ans() {
            None => {
                return GiveupOutcome::NoPuzzle;
            },
            Some(answer) => answer.clone(),
        };
        let elapsed: u64 = self.status.elapsed(now).unwrap();
        let then = self.close_round(library, "~giveup", elapsed, now);
        GiveupOutcome::Revealed { answer, then }
    }

    /// Judges the guess of a participant against the puzzle that is out, at
    /// time `now`. A correct guess closes the puzzle; in a contest it adds 1
    /// to the count of the participant, and the contest goes on to its next
    /// round or ends.
    pub fn answer_check(
        &mut self,
        library: &Library,
        participant: &str,
        guess: &str,
        now: u64,
    ) -> (outcome: AnswerOutcome)
        requires
            old(self).wf(),
            library.wf(),
        ensures
            final(self).wf(),
            answered(old(self)@, final(self)@, outcome, participant@, guess@, now, *library),
    {
        let lang: Lang = match self.status.lang() {
            None => {
                return AnswerOutcome::Wrong;
            },
            Some(lang) => lang,
        };
        let result = self.status.answer_check(guess, library.dictionary(lang));
        if !result.is_correct() {
            return AnswerOutcome::Wrong;
        }
        let answer: String = self.status.ans().unwrap().clone();
        let then = self.close_round(library, participant, 1, now);
        AnswerOutcome::Correct { result, answer, then }
    }

    /// Answers a request for a hint on the puzzle that is out, at time
    /// `now`. A request for no cluster, or for more clusters than the answer
    /// has, is refused. A request that would leave at most one cluster open
    /// counts as giving up. Any other request is granted and leaves the
    /// quiz as it is.
    pub fn hint(&mut self, library: &Library, request: Hint, now: u64) -> (outcome: HintOutcome)
        requires
            old(self).wf(),
            library.wf(),
        ensures
            final(self).wf(),
            hinted(old(self)@, final(self)@, outcome, request, now, *library),
    {
        let clusters: Vec<String> = match self.status.ans() {
            None => {
                return HintOutcome::NoPuzzle;
            },
            Some(answer) => graphemes(answer.as_str()),
        };
        let n: usize = request.num();
        assert(clusters.deep_view().len() == clusters@.len());
        match rule(n, clusters.len()) {
            HintRuling::Zero => HintOutcome::Zero,
            HintRuling::TooLong => HintOutcome::TooLong,
            HintRuling::GiveUp => HintOutcome::GaveUp(self.giveup(library, now)),
            HintRuling::Reveal => match request {
                Hint::First(_) => HintOutcome::First { amount: n, text: first_hint(&clusters, n) },
                Hint::Random(_) => {
                    let positions = sample_positions(clusters.len(), n);
                    let text = random_hint(&clusters, &positions);
                    assert(fair_sample(positions@, clusters.deep_view().len(), n as nat));
                    HintOutcome::Random { amount: n, text }
                },
            },
        }
    }
}

} // verus!
