//! The languages a puzzle can be drawn from, and the set of languages of a
//! contest.

use crate::chance::random_below;
use crate::order::str_equal;
use vstd::prelude::*;

verus! {

/// A language that has a dictionary.
#[derive(Clone, Copy, Debug, PartialEq, Eq, Hash, Structural)]
pub enum Lang {
    En,
    Ja,
    Fr,
    De,
    It,
    Ru,
    Eo,
}

/// How many languages there are.
pub const LANGUAGE_COUNT: usize = 7;

impl Lang {
    /// The place of the language in the fixed order of the languages.
    pub open spec fn rank(self) -> nat {
        match self {
            Lang::En => 0,
            Lang::Ja => 1,
            Lang::Fr => 2,
            Lang::De => 3,
            Lang::It => 4,
            Lang::Ru => 5,
            Lang::Eo => 6,
        }
    }

    /// The short name under which the language is asked for.
    pub open spec fn symbol(self) -> Seq<char> {
        match self {
            Lang::En => "en"@,
            Lang::Ja => "ja"@,
            Lang::Fr => "fr"@,
            Lang::De => "de"@,
            Lang::It => "it"@,
            Lang::Ru => "ru"@,
            Lang::Eo => "eo"@,
        }
    }

    /// The place of the language in the fixed order of the languages.
    pub fn index(self) -> (i: usize)
        ensures
            i == self.rank(),
            i < LANGUAGE_COUNT,
    {
        match self {
            Lang::En => 0,
            Lang::Ja => 1,
            Lang::Fr => 2,
            Lang::De => 3,
            Lang::It => 4,
            Lang::Ru => 5,
            Lang::Eo => 6,
        }
    }

    /// The language at a place of the fixed order, if the place exists.
    pub fn from_index(i: usize) -> (lang: Option<Lang>)
        ensures
            i < LANGUAGE_COUNT <==> lang is Some,
            lang matches Some(l) ==> l.rank() == i,
    {
        if i == 0 {
            Some(Lang::En)
        } else if i == 1 {
            Some(Lang::Ja)
        } else if i == 2 {
            Some(Lang::Fr)
        } else if i == 3 {
            Some(Lang::De)
        } else if i == 4 {
            Some(Lang::It)
        } else if i == 5 {
            Some(Lang::Ru)
        } else if i == 6 {
            Some(Lang::Eo)
        } else {
            None
        }
    }

    /// The short name under which the language is asked for.
    pub fn as_symbol(self) -> (symbol: &'static str)
        ensures
            symbol@ == self.symbol(),
    {
        match self {
            Lang::En => "en",
            Lang::Ja => "ja",
            Lang::Fr => "fr",
            Lang::De => "de",
            Lang::It => "it",
            Lang::Ru => "ru",
            Lang::Eo => "eo",
        }
    }
}

/// The language that is asked for under the name, if the name is the
/// symbol of one.
pub fn language_named(name: &str) -> (lang: Option<Lang>)
    ensures
        lang matches Some(l) ==> name@ == l.symbol(),
        lang is None ==> forall|l: Lang| name@ != #[trigger] l.symbol(),
{
    let mut i: usize = 0;
    while i < LANGUAGE_COUNT
        invariant
            i <= LANGUAGE_COUNT,
            forall|l: Lang| l.rank() < i ==> name@ != #[trigger] l.symbol(),
        decreases LANGUAGE_COUNT - i,
    {
        let lang = Lang::from_index(i).unwrap();
        if str_equal(name, lang.as_symbol()) {
            return Some(lang);
        }
        proof {
            assert forall|l: Lang| l.rank() < i + 1 implies name@ != #[trigger] l.symbol() by {
                if l.rank() == i {
                    lemma_rank_is_injective(l, lang);
                }
            }
        }
        i += 1;
    }
    None
}

/// The name under which a contest is asked for.
pub open spec fn contest_command() -> Seq<char> {
    "contest"@
}

/// Whether the name asks for a puzzle: it is the name of the contest or
/// the symbol of a language, the whole of it and nothing else.
pub fn is_quiz_command(name: &str) -> (quiz: bool)
    ensures
        quiz == (name@ == contest_command() || exists|l: Lang| name@ == #[trigger] l.symbol()),
{
    if str_equal(name, "contest") {
        true
    } else {
        match language_named(name) {
            Some(lang) => {
                assert(name@ == lang.symbol());
                true
            },
            None => false,
        }
    }
}

/// Two languages with the same rank are the same language.
pub proof fn lemma_rank_is_injective(a: Lang, b: Lang)
    requires
        a.rank() == b.rank(),
    ensures
        a == b,
{
}

/// Whether a language occurs in a list of languages.
pub fn lists_language(choices: &Vec<Lang>, lang: Lang) -> (found: bool)
    ensures
        found == choices@.contains(lang),
{
    let mut i: usize = 0;
    while i < choices.len()
        invariant
            i <= choices.len(),
            forall|k: int| 0 <= k < i ==> choices@[k] != lang,
        decreases choices.len() - i,
    {
        if choices[i] == lang {
            return true;
        }
        i += 1;
    }
    false
}

/// The languages of a contest: each chosen language once, in the fixed
/// order of the languages.
pub struct LanguageSet {
    langs: Vec<Lang>,
}

impl View for LanguageSet {
    type V = Seq<Lang>;

    closed spec fn view(&self) -> Seq<Lang> {
        self.langs@
    }
}

/// The languages stand in ascending rank, none of them twice.
pub open spec fn ascending_languages(langs: Seq<Lang>) -> bool {
    forall|i: int, j: int| 0 <= i < j < langs.len() ==> langs[i].rank() < langs[j].rank()
}

impl LanguageSet {
    /// No language stands twice, and the languages stand in their fixed order.
    pub open spec fn wf(&self) -> bool {
        ascending_languages(self@)
    }

    /// The set without a language.
    pub fn empty() -> (set: LanguageSet)
        ensures
            set.wf(),
            set@.len() == 0,
    {
        LanguageSet { langs: Vec::new() }
    }

    /// The set of the languages that were chosen, however often and in
    /// whatever order they were named.
    pub fn from_choices(choices: &Vec<Lang>) -> (set: LanguageSet)
        ensures
            set.wf(),
            forall|lang: Lang| set@.contains(lang) <==> choices@.contains(lang),
    {
        let mut langs: Vec<Lang> = Vec::new();
        let mut r: usize = 0;
        while r < LANGUAGE_COUNT
            invariant
                r <= LANGUAGE_COUNT,
                ascending_languages(langs@),
                forall|k: int| 0 <= k < langs.len() ==> langs@[k].rank() < r,
                forall|lang: Lang|
                    langs@.contains(lang) <==> (choices@.contains(lang) && lang.rank() < r),
            decreases LANGUAGE_COUNT - r,
        {
            let lang = Lang::from_index(r).unwrap();
            let ghost before = langs@;
            if lists_language(choices, lang) {
                langs.push(lang);
                proof {
                    assert(langs@[before.len() as int] == lang);
                    assert forall|other: Lang|
                        langs@.contains(other) <==> (choices@.contains(other) && other.rank() < r
                            + 1) by {
                        if before.contains(other) {
                            let k = choose|k: int| 0 <= k < before.len() && before[k] == other;
                            assert(langs@[k] == other);
                        }
                        if other.rank() == r {
                            lemma_rank_is_injective(other, lang);
                        }
                    }
                }
            } else {
                proof {
                    assert forall|other: Lang|
                        langs@.contains(other) <==> (choices@.contains(other) && other.rank() < r
                            + 1) by {
                        if other.rank() == r {
                            lemma_rank_is_injective(other, lang);
                        }
                    }
                }
            }
            r += 1;
        }
        LanguageSet { langs }
    }

    /// The number of languages in the set.
    pub fn len(&self) -> (n: usize)
        ensures
            n == self@.len(),
    {
        self.langs.len()
    }

    /// Whether the set holds no language.
    pub fn is_empty(&self) -> (empty: bool)
        ensures
            empty == (self@.len() == 0),
    {
        self.langs.len() == 0
    }

    /// The language at a place of the set.
    pub fn get(&self, i: usize) -> (lang: Lang)
        requires
            i < self@.len(),
        ensures
            lang == self@[i as int],
    {
        self.langs[i]
    }

    /// Whether the set holds the language.
    pub fn contains(&self, lang: Lang) -> (found: bool)
        ensures
            found == self@.contains(lang),
    {
        lists_language(&self.langs, lang)
    }

    /// The languages of the set, in order.
    pub fn to_vec(&self) -> (langs: Vec<Lang>)
        ensures
            langs@ == self@,
    {
        self.langs.clone()
    }

    /// One language of the set, picked at random.
    pub fn select(&self) -> (lang: Lang)
        requires
            self@.len() > 0,
        ensures
            self@.contains(lang),
    {
        let i = random_below(self.langs.len());
        self.get(i)
    }
}

} // verus!
