use nazonazo::dictionary::Library;
use nazonazo::judge::CheckResult;
use nazonazo::lang::{Lang, LanguageSet};
use nazonazo::session::{
    draw_puzzle, AnswerOutcome, ContestStart, GiveupOutcome, RoundEnd, Session,
};
use nazonazo::status::Status;

/// A library in which every language has exactly one word, so that every
/// draw is known.
fn one_word_library() -> Library {
    let words = ["cat", "ねこ", "chat", "katze", "gatto", "кот", "kato"];
    let lists: Vec<Vec<String>> = words.iter().map(|w| vec![w.to_string()]).collect();
    Library::new(&lists).unwrap()
}

fn pair(name: &str, count: u64) -> (String, u64) {
    (name.to_string(), count)
}

#[test]
fn three_correct_answers_run_a_contest_of_three_rounds() {
    let library = one_word_library();
    let mut session = Session::new();
    let started = session.contest(&library, 3, &vec![Lang::En], 100);
    match started {
        ContestStart::Started(puzzle) => {
            assert_eq!(puzzle.answer, "cat");
            assert_eq!(puzzle.signature, "act");
            assert_eq!(puzzle.lang, Lang::En);
        }
        other => panic!("the contest did not start: {:?}", other),
    }
    assert_eq!(session.status().get_contest_num(), Some((1, 3)));

    let first = session.answer_check(&library, "alice", "cat", 101);
    match first {
        AnswerOutcome::Correct { result, answer, then: RoundEnd::NextRound { next, round, total } } => {
            assert_eq!(result, CheckResult::Assumed);
            assert_eq!(answer, "cat");
            assert_eq!((round, total), (2, 3));
            assert_eq!(next.answer, "cat");
        }
        other => panic!("unexpected outcome: {:?}", other),
    }
    assert_eq!(session.status().get_contest_num(), Some((2, 3)));

    let second = session.answer_check(&library, "bob", "tac", 102);
    match second {
        AnswerOutcome::Correct { result, then: RoundEnd::NextRound { round, total, .. }, .. } => {
            assert_eq!(result, CheckResult::UnlistedButValid);
            assert_eq!((round, total), (3, 3));
        }
        other => panic!("unexpected outcome: {:?}", other),
    }
    assert_eq!(session.status().get_contest_num(), Some((3, 3)));
    assert!(session.status().is_contest_end());

    let third = session.answer_check(&library, "alice", "cat", 103);
    match third {
        AnswerOutcome::Correct { then: RoundEnd::ContestEnd { total, ranking }, .. } => {
            assert_eq!(total, 3);
            assert_eq!(ranking, vec![pair("alice", 2), pair("bob", 1)]);
        }
        other => panic!("unexpected outcome: {:?}", other),
    }
    assert_eq!(*session.status(), Status::StandingBy);
    assert_eq!(session.results().len(), 0);
}

#[test]
fn equal_counts_rank_in_the_order_of_the_first_score() {
    let library = one_word_library();
    let mut session = Session::new();
    session.contest(&library, 4, &vec![Lang::En], 0);
    session.answer_check(&library, "carol", "cat", 1);
    session.answer_check(&library, "alice", "cat", 2);
    session.answer_check(&library, "bob", "cat", 3);
    let last = session.answer_check(&library, "bob", "cat", 4);
    match last {
        AnswerOutcome::Correct { then: RoundEnd::ContestEnd { ranking, .. }, .. } => {
            assert_eq!(ranking, vec![pair("bob", 2), pair("carol", 1), pair("alice", 1)]);
        }
        other => panic!("unexpected outcome: {:?}", other),
    }
}

#[test]
fn a_wrong_guess_changes_nothing() {
    let library = one_word_library();
    let mut session = Session::new();
    session.contest(&library, 2, &vec![Lang::En], 0);
    let before = Status::Contesting {
        answer: "cat".to_string(),
        lang: Lang::En,
        round: 1,
        total: 2,
        started_at: 0,
    };
    assert_eq!(session.answer_check(&library, "alice", "dog", 1), AnswerOutcome::Wrong);
    assert_eq!(*session.status(), before);
    assert_eq!(session.results().len(), 0);
}

#[test]
fn a_guess_without_a_puzzle_is_wrong() {
    let library = one_word_library();
    let mut session = Session::new();
    assert_eq!(session.answer_check(&library, "alice", "cat", 1), AnswerOutcome::Wrong);
    assert_eq!(*session.status(), Status::StandingBy);
}

#[test]
fn force_abort_clears_the_contest_in_every_round() {
    let library = one_word_library();
    for rounds_played in 0..3 {
        let mut session = Session::new();
        session.contest(&library, 3, &vec![Lang::En, Lang::Ja], 0);
        for _ in 0..rounds_played {
            let answer = session.status().ans().unwrap().clone();
            session.answer_check(&library, "alice", &answer, 1);
        }
        assert!(session.status().is_contesting());
        assert!(session.unrated());
        assert_eq!(*session.status(), Status::StandingBy);
        assert_eq!(session.results().len(), 0);
        assert_eq!(session.results().entries(), vec![]);
    }
}

#[test]
fn force_abort_without_a_contest_does_nothing() {
    let library = one_word_library();
    let mut session = Session::new();
    assert!(!session.unrated());
    session.start(&library, Lang::En, 0);
    let before = Status::Holding { answer: "cat".to_string(), lang: Lang::En, started_at: 0 };
    assert!(!session.unrated());
    assert_eq!(*session.status(), before);
}

#[test]
fn a_contest_needs_rest_rounds_and_languages() {
    let library = one_word_library();
    let mut session = Session::new();
    assert_eq!(session.contest(&library, 0, &vec![Lang::En], 0), ContestStart::NoRounds);
    assert_eq!(session.contest(&library, 3, &vec![], 0), ContestStart::NoLanguages);
    assert_eq!(*session.status(), Status::StandingBy);
    session.start(&library, Lang::Fr, 0);
    let before = Status::Holding { answer: "chat".to_string(), lang: Lang::Fr, started_at: 0 };
    assert_eq!(session.contest(&library, 3, &vec![Lang::En], 0), ContestStart::Busy);
    assert_eq!(*session.status(), before);
}

#[test]
fn a_contest_keeps_each_chosen_language_once_and_in_order() {
    let library = one_word_library();
    let mut session = Session::new();
    session.contest(&library, 1, &vec![Lang::Ru, Lang::En, Lang::Ru, Lang::Ja, Lang::En], 0);
    assert_eq!(session.languages().to_vec(), vec![Lang::En, Lang::Ja, Lang::Ru]);
    let lang = session.status().lang().unwrap();
    assert!([Lang::En, Lang::Ja, Lang::Ru].contains(&lang));
}

#[test]
fn a_contest_of_one_round_ends_with_the_first_answer() {
    let library = one_word_library();
    let mut session = Session::new();
    session.contest(&library, 1, &vec![Lang::De], 0);
    let outcome = session.answer_check(&library, "dora", "katze", 9);
    match outcome {
        AnswerOutcome::Correct { then: RoundEnd::ContestEnd { total, ranking }, .. } => {
            assert_eq!(total, 1);
            assert_eq!(ranking, vec![pair("dora", 1)]);
        }
        other => panic!("unexpected outcome: {:?}", other),
    }
    assert_eq!(*session.status(), Status::StandingBy);
}

#[test]
fn giving_up_a_round_adds_the_time_under_the_giveup_key() {
    let library = one_word_library();
    let mut session = Session::new();
    session.contest(&library, 3, &vec![Lang::En], 100);
    let first = session.giveup(&library, 130);
    match first {
        GiveupOutcome::Revealed { answer, then: RoundEnd::NextRound { round, total, .. } } => {
            assert_eq!(answer, "cat");
            assert_eq!((round, total), (2, 3));
        }
        other => panic!("unexpected outcome: {:?}", other),
    }
    assert_eq!(session.results().entries(), vec![pair("~giveup", 30)]);
    session.answer_check(&library, "alice", "cat", 140);
    let last = session.giveup(&library, 150);
    match last {
        GiveupOutcome::Revealed { then: RoundEnd::ContestEnd { total, ranking }, .. } => {
            assert_eq!(total, 3);
            assert_eq!(ranking, vec![pair("~giveup", 40), pair("alice", 1)]);
        }
        other => panic!("unexpected outcome: {:?}", other),
    }
    assert_eq!(*session.status(), Status::StandingBy);
    assert_eq!(session.results().len(), 0);
}

#[test]
fn a_single_question_ends_with_a_correct_answer_or_with_giving_up() {
    let library = one_word_library();
    let mut session = Session::new();
    let shown = session.start(&library, Lang::En, 7).unwrap();
    assert_eq!(shown.answer, "cat");
    assert_eq!(shown.signature, "act");
    assert_eq!(
        *session.status(),
        Status::Holding { answer: "cat".to_string(), lang: Lang::En, started_at: 7 }
    );
    assert!(session.start(&library, Lang::Ja, 8).is_none());
    let outcome = session.answer_check(&library, "alice", "act", 9);
    assert_eq!(
        outcome,
        AnswerOutcome::Correct {
            result: CheckResult::UnlistedButValid,
            answer: "cat".to_string(),
            then: RoundEnd::Rest,
        }
    );
    assert_eq!(*session.status(), Status::StandingBy);

    session.start(&library, Lang::Ja, 10);
    assert_eq!(
        session.giveup(&library, 11),
        GiveupOutcome::Revealed { answer: "ねこ".to_string(), then: RoundEnd::Rest }
    );
    assert_eq!(*session.status(), Status::StandingBy);
    assert_eq!(session.giveup(&library, 12), GiveupOutcome::NoPuzzle);
}

#[test]
fn hold_and_contest_continue_take_the_puzzle_as_given() {
    let mut session = Session::new();
    assert!(session.hold("apple".to_string(), Lang::En, 3));
    assert!(!session.hold("pear".to_string(), Lang::En, 4));
    assert_eq!(session.status().ans().unwrap(), "apple");
    assert_eq!(session.status().elapsed(10), Some(7));
    assert_eq!(session.status().elapsed(1), Some(0));
}

#[test]
fn a_contest_can_be_run_with_puzzles_of_the_callers_choice() {
    let library = one_word_library();
    let mut session = Session::new();
    let languages = LanguageSet::from_choices(&vec![Lang::It]);
    session.begin_contest(2, languages, "pane".to_string(), Lang::It, 50);
    assert_eq!(
        *session.status(),
        Status::Contesting {
            answer: "pane".to_string(),
            lang: Lang::It,
            round: 1,
            total: 2,
            started_at: 50,
        }
    );
    session.contest_continue("vino".to_string(), Lang::It, 60);
    assert_eq!(
        *session.status(),
        Status::Contesting {
            answer: "vino".to_string(),
            lang: Lang::It,
            round: 2,
            total: 2,
            started_at: 60,
        }
    );
    assert_eq!(session.results().len(), 0);
    let end = session.close_round(&library, "alice", 1, 70);
    assert_eq!(end, RoundEnd::ContestEnd { total: 2, ranking: vec![pair("alice", 1)] });
    assert_eq!(*session.status(), Status::StandingBy);
    assert_eq!(session.languages().to_vec(), vec![Lang::It]);
}

#[test]
fn a_drawn_puzzle_comes_from_a_language_of_the_set() {
    let library = one_word_library();
    let languages = LanguageSet::from_choices(&vec![Lang::Ru, Lang::Eo]);
    for _ in 0..50 {
        let puzzle = draw_puzzle(&library, &languages);
        match puzzle.lang {
            Lang::Ru => assert_eq!(puzzle.answer, "кот"),
            Lang::Eo => assert_eq!(puzzle.answer, "kato"),
            other => panic!("a language outside the set: {:?}", other),
        }
    }
}

#[test]
fn a_guess_is_judged_with_the_dictionary_of_the_puzzle() {
    let lists: Vec<Vec<String>> = vec![
        vec!["cat".to_string(), "act".to_string()],
        vec!["ねこ".to_string()],
        vec!["chat".to_string(), "tach".to_string()],
        vec!["katze".to_string()],
        vec!["gatto".to_string()],
        vec!["кот".to_string(), "ток".to_string()],
        vec!["kato".to_string()],
    ];
    let library = Library::new(&lists).unwrap();
    let mut session = Session::new();
    assert!(session.hold("cat".to_string(), Lang::En, 0));
    let outcome = session.answer_check(&library, "alice", "act", 1);
    assert_eq!(
        outcome,
        AnswerOutcome::Correct {
            result: CheckResult::RecognizedAnagram,
            answer: "cat".to_string(),
            then: RoundEnd::Rest,
        }
    );
    assert!(session.hold("кот".to_string(), Lang::Ru, 2));
    let outcome = session.answer_check(&library, "alice", "ток", 3);
    assert_eq!(
        outcome,
        AnswerOutcome::Correct {
            result: CheckResult::RecognizedAnagram,
            answer: "кот".to_string(),
            then: RoundEnd::Rest,
        }
    );
    assert!(session.hold("кот".to_string(), Lang::Ru, 4));
    let outcome = session.answer_check(&library, "alice", "отк", 5);
    assert_eq!(
        outcome,
        AnswerOutcome::Correct {
            result: CheckResult::UnlistedButValid,
            answer: "кот".to_string(),
            then: RoundEnd::Rest,
        }
    );
}
