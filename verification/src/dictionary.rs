//! The word lists: one dictionary per language, filled once and only read
//! afterwards.

use crate::chance::random_below;
use crate::lang::{Lang, LANGUAGE_COUNT};
use crate::order::str_equal;
use crate::signature::{signature, signature_of};
use vstd::prelude::*;
use vstd::string::*;

verus! {

/// The words of one language. A dictionary is never empty.
pub struct Dictionary {
    words: Vec<String>,
}

impl View for Dictionary {
    type V = Seq<Seq<char>>;

    closed spec fn view(&self) -> Seq<Seq<char>> {
        self.words.deep_view()
    }
}

impl Dictionary {
    /// There is a word to draw.
    pub open spec fn wf(&self) -> bool {
        self@.len() > 0
    }

    /// A dictionary of the given words, in their order; none where there is
    /// no word.
    pub fn new(words: Vec<String>) -> (dictionary: Option<Dictionary>)
        ensures
            dictionary is Some <==> words@.len() > 0,
            dictionary matches Some(d) ==> d.wf() && d@ == words.deep_view(),
    {
        if words.len() == 0 {
            None
        } else {
            Some(Dictionary { words })
        }
    }

    /// The number of words.
    pub fn len(&self) -> (n: usize)
        ensures
            n == self@.len(),
    {
        self.words.len()
    }

    /// The word at a place of the dictionary.
    pub fn word(&self, i: usize) -> (word: &String)
        requires
            i < self@.len(),
        ensures
            word@ == self@[i as int],
    {
        &self.words[i]
    }

    /// Whether the text is a word of the dictionary, letter for letter.
    pub fn contains(&self, text: &str) -> (listed: bool)
        ensures
            listed == self@.contains(text@),
    {
        let mut i: usize = 0;
        while i < self.words.len()
            invariant
                i <= self.words.len(),
                forall|k: int| 0 <= k < i ==> self@[k] != text@,
            decreases self.words.len() - i,
        {
            if str_equal(self.words[i].as_str(), text) {
                assert(self@[i as int] == text@);
                return true;
            }
            i += 1;
        }
        false
    }

    /// A word of the dictionary, drawn at random.
    pub fn draw(&self) -> (word: String)
        requires
            self.wf(),
        ensures
            self@.contains(word@),
    {
        let i = random_below(self.words.len());
        let word = self.words[i].clone();
        assert(self@[i as int] == word@);
        word
    }
}

/// A copy of the words, in their order.
pub fn copy_words(words: &Vec<String>) -> (copy: Vec<String>)
    ensures
        copy.deep_view() == words.deep_view(),
        copy@.len() == words@.len(),
{
    let mut copy: Vec<String> = Vec::new();
    let mut i: usize = 0;
    while i < words.len()
        invariant
            i <= words.len(),
            copy@.len() == i,
            forall|k: int| 0 <= k < i ==> copy@[k]@ == words@[k]@,
        decreases words.len() - i,
    {
        copy.push(words[i].clone());
        i += 1;
    }
    assert(copy.deep_view() =~= words.deep_view());
    copy
}

/// A word that was drawn, with the language it is from and the signature
/// under which it is shown.
#[derive(Debug, PartialEq, Eq)]
pub struct Puzzle {
    pub answer: String,
    pub lang: Lang,
    pub signature: String,
}

/// Why a library of dictionaries could not be set up.
#[derive(Clone, Copy, Debug, PartialEq, Eq, Structural)]
pub enum ConfigError {
    /// There is no word list for the language.
    MissingLanguage(Lang),
    /// The word list of the language holds no word.
    EmptyDictionary(Lang),
}

impl ConfigError {
    /// The language that the error is about.
    pub open spec fn lang(self) -> Lang {
        match self {
            ConfigError::MissingLanguage(lang) => lang,
            ConfigError::EmptyDictionary(lang) => lang,
        }
    }
}

/// There is a word list at the place, and it holds a word.
pub open spec fn usable_list(lists: Seq<Vec<String>>, place: int) -> bool {
    0 <= place < lists.len() && lists[place]@.len() > 0
}

/// The dictionaries of all languages.
pub struct Library {
    dictionaries: Vec<Dictionary>,
}

impl Library {
    /// The words of a language.
    pub closed spec fn words(&self, lang: Lang) -> Seq<Seq<char>> {
        self.dictionaries@[lang.rank() as int]@
    }

    /// Every language has a dictionary with a word in it.
    pub closed spec fn wf(&self) -> bool {
        &&& self.dictionaries@.len() == LANGUAGE_COUNT
        &&& forall|i: int|
            0 <= i < self.dictionaries@.len() ==> (#[trigger] self.dictionaries@[i]).wf()
    }

    /// A library of the given word lists, one for each language in the
    /// fixed order of the languages. It is refused for the first language
    /// whose list is missing or empty.
    pub fn new(lists: &Vec<Vec<String>>) -> (library: Result<Library, ConfigError>)
        ensures
            match library {
                Ok(l) => {
                    &&& l.wf()
                    &&& forall|r: int| 0 <= r < LANGUAGE_COUNT ==> usable_list(lists@, r)
                    &&& forall|lang: Lang| #[trigger]
                        l.words(lang) == lists@[lang.rank() as int].deep_view()
                },
                Err(e) => {
                    &&& !usable_list(lists@, e.lang().rank() as int)
                    &&& forall|r: int| 0 <= r < e.lang().rank() ==> usable_list(lists@, r)
                    &&& e is MissingLanguage <==> e.lang().rank() >= lists@.len()
                },
            },
    {
        let mut dictionaries: Vec<Dictionary> = Vec::new();
        let mut i: usize = 0;
        while i < LANGUAGE_COUNT
            invariant
                i <= LANGUAGE_COUNT,
                dictionaries@.len() == i,
                forall|k: int| 0 <= k < i ==> usable_list(lists@, k),
                forall|k: int| 0 <= k < i ==> (#[trigger] dictionaries@[k]).wf(),
                forall|k: int|
                    0 <= k < i ==> (#[trigger] dictionaries@[k])@ == lists@[k].deep_view(),
            decreases LANGUAGE_COUNT - i,
        {
            let lang = Lang::from_index(i).unwrap();
            if i >= lists.len() {
                return Err(ConfigError::MissingLanguage(lang));
            }
            match Dictionary::new(copy_words(&lists[i])) {
                Some(d) => {
                    dictionaries.push(d);
                },
                None => {
                    return Err(ConfigError::EmptyDictionary(lang));
                },
            }
            i += 1;
        }
        Ok(Library { dictionaries })
    }

    /// The dictionary of a language.
    pub fn dictionary(&self, lang: Lang) -> (dictionary: &Dictionary)
        requires
            self.wf(),
        ensures
            dictionary.wf(),
            dictionary@ == self.words(lang),
    {
        &self.dictionaries[lang.index()]
    }

    /// Draws a word of the language and works out the signature under
    /// which the puzzle is shown.
    pub fn prob(&self, lang: Lang) -> (puzzle: Puzzle)
        requires
            self.wf(),
        ensures
            puzzle.lang == lang,
            self.words(lang).contains(puzzle.answer@),
            puzzle.signature@ == signature_of(puzzle.answer@),
    {
        let answer = self.dictionary(lang).draw();
        let signature = signature(answer.as_str());
        Puzzle { answer, lang, signature }
    }
}

} // verus!
