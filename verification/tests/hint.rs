use nazonazo::dictionary::Library;
use nazonazo::hint::{first_clusters, reveal_at, rule, Hint, HintRuling};
use nazonazo::lang::Lang;
use nazonazo::session::{first_hint, random_hint, GiveupOutcome, HintOutcome, RoundEnd, Session};
use nazonazo::status::Status;

fn library_of(word: &str) -> Library {
    let lists: Vec<Vec<String>> = (0..7).map(|_| vec![word.to_string()]).collect();
    Library::new(&lists).unwrap()
}

fn strings(items: &[&str]) -> Vec<String> {
    items.iter().map(|s| s.to_string()).collect()
}

#[test]
fn hints_on_apple() {
    let library = library_of("apple");
    let mut session = Session::new();
    session.start(&library, Lang::En, 0);
    let before = Status::Holding { answer: "apple".to_string(), lang: Lang::En, started_at: 0 };

    assert_eq!(session.hint(&library, Hint::First(0), 1), HintOutcome::Zero);
    assert_eq!(session.hint(&library, Hint::First(6), 1), HintOutcome::TooLong);
    assert_eq!(
        session.hint(&library, Hint::First(3), 1),
        HintOutcome::First { amount: 3, text: "app".to_string() }
    );
    assert_eq!(*session.status(), before);

    assert_eq!(
        session.hint(&library, Hint::First(4), 2),
        HintOutcome::GaveUp(GiveupOutcome::Revealed {
            answer: "apple".to_string(),
            then: RoundEnd::Rest,
        })
    );
    assert_eq!(*session.status(), Status::StandingBy);
}

#[test]
fn a_hint_for_the_whole_answer_counts_as_giving_up() {
    let library = library_of("apple");
    let mut session = Session::new();
    session.start(&library, Lang::En, 0);
    assert_eq!(
        session.hint(&library, Hint::Random(5), 2),
        HintOutcome::GaveUp(GiveupOutcome::Revealed {
            answer: "apple".to_string(),
            then: RoundEnd::Rest,
        })
    );
}

#[test]
fn a_hint_without_a_puzzle_is_refused() {
    let library = library_of("apple");
    let mut session = Session::new();
    assert_eq!(session.hint(&library, Hint::First(2), 0), HintOutcome::NoPuzzle);
    assert_eq!(session.hint(&library, Hint::Random(0), 0), HintOutcome::NoPuzzle);
}

#[test]
fn a_random_hint_shows_exactly_the_clusters_asked_for() {
    let library = library_of("pumpkins");
    let answer: Vec<char> = "pumpkins".chars().collect();
    for n in 1..=6 {
        for _ in 0..20 {
            let mut session = Session::new();
            session.start(&library, Lang::En, 0);
            match session.hint(&library, Hint::Random(n), 1) {
                HintOutcome::Random { amount, text } => {
                    assert_eq!(amount, n);
                    let shown: Vec<char> = text.chars().collect();
                    assert_eq!(shown.len(), answer.len());
                    let mut open = 0;
                    for (i, c) in shown.iter().enumerate() {
                        if *c != '*' {
                            assert_eq!(*c, answer[i]);
                            open += 1;
                        }
                    }
                    assert_eq!(open, n);
                }
                other => panic!("unexpected outcome: {:?}", other),
            }
            assert!(session.status().is_holding());
        }
    }
}

#[test]
fn a_forced_give_up_in_a_contest_moves_to_the_next_round() {
    let library = library_of("apple");
    let mut session = Session::new();
    session.contest(&library, 2, &vec![Lang::En], 10);
    match session.hint(&library, Hint::Random(4), 25) {
        HintOutcome::GaveUp(GiveupOutcome::Revealed {
            answer,
            then: RoundEnd::NextRound { round, total, .. },
        }) => {
            assert_eq!(answer, "apple");
            assert_eq!((round, total), (2, 2));
        }
        other => panic!("unexpected outcome: {:?}", other),
    }
    assert_eq!(session.results().entries(), vec![("~giveup".to_string(), 15)]);
}

#[test]
fn rulings_by_length() {
    assert_eq!(rule(0, 5), HintRuling::Zero);
    assert_eq!(rule(1, 5), HintRuling::Reveal);
    assert_eq!(rule(3, 5), HintRuling::Reveal);
    assert_eq!(rule(4, 5), HintRuling::GiveUp);
    assert_eq!(rule(5, 5), HintRuling::GiveUp);
    assert_eq!(rule(6, 5), HintRuling::TooLong);
    // A request for no cluster is refused before anything else is asked.
    assert_eq!(rule(0, 0), HintRuling::Zero);
    assert_eq!(rule(0, 1), HintRuling::Zero);
    assert_eq!(rule(1, 0), HintRuling::TooLong);
    assert_eq!(rule(1, 1), HintRuling::GiveUp);
    assert_eq!(rule(1, 2), HintRuling::GiveUp);
    assert_eq!(rule(usize::MAX, 3), HintRuling::TooLong);
}

#[test]
fn the_amount_of_a_request() {
    assert_eq!(Hint::First(3).num(), 3);
    assert_eq!(Hint::Random(2).num(), 2);
}

#[test]
fn first_clusters_takes_from_the_front() {
    let clusters = strings(&["a", "p", "p", "l", "e"]);
    assert_eq!(first_clusters(&clusters, 3), strings(&["a", "p", "p"]));
    assert_eq!(first_clusters(&clusters, 0), strings(&[]));
    assert_eq!(first_clusters(&clusters, 9), clusters);
    assert_eq!(first_hint(&clusters, 2), "ap");
}

#[test]
fn reveal_at_masks_every_other_place() {
    let clusters = strings(&["a", "p", "p", "l", "e"]);
    assert_eq!(reveal_at(&clusters, &vec![3, 0]), strings(&["a", "*", "*", "l", "*"]));
    assert_eq!(reveal_at(&clusters, &vec![]), strings(&["*", "*", "*", "*", "*"]));
    assert_eq!(reveal_at(&clusters, &vec![1, 1, 7]), strings(&["*", "p", "*", "*", "*"]));
    assert_eq!(random_hint(&clusters, &vec![4, 2]), "**p*e");
}

#[test]
fn a_hint_counts_grapheme_clusters() {
    // Five clusters: the second is "e" with a combining accent.
    let library = library_of("ne\u{301}ant");
    let mut session = Session::new();
    session.start(&library, Lang::Fr, 0);
    assert_eq!(
        session.hint(&library, Hint::First(2), 1),
        HintOutcome::First { amount: 2, text: "ne\u{301}".to_string() }
    );
    assert_eq!(session.hint(&library, Hint::First(6), 1), HintOutcome::TooLong);
}
