//! Words of the game and the conversions between plain text and words.
//!
//! A word is a textual token; whether a text is a valid word is decided
//! against the word length that the engine's vocabulary fixes.

use vstd::prelude::*;
use vstd::string::StrSliceExecFns;

verus! {

/// A word of the game: an immutable textual token. Validity with respect to
/// a vocabulary (the right number of characters) is checked where words are
/// made from raw text, not stored here.
#[derive(Debug)]
pub struct Word {
    pub text: String,
}

impl View for Word {
    type V = Seq<char>;

    open spec fn view(&self) -> Seq<char> {
        self.text@
    }
}

impl Word {
    /// Wraps a text as a word without validation; callers that need a valid
    /// word go through `strings_to_words`.
    pub fn from_text(text: String) -> (w: Word)
        ensures
            w@ == text@,
    {
        Word { text }
    }

    /// A fresh word with the same text.
    pub fn duplicate(&self) -> (w: Word)
        ensures
            w@ == self@,
    {
        Word { text: self.text.clone() }
    }

    /// Whether two words carry the same text.
    pub fn same_text(&self, other: &Word) -> (r: bool)
        ensures
            r == (self@ == other@),
    {
        self.text == other.text
    }
}

/// Why a text could not become a word.
#[derive(Debug, PartialEq, Eq, Structural)]
pub enum WordError {
    /// The text at `index` has `found` characters where the vocabulary
    /// demands `expected`.
    WrongLength { index: usize, expected: usize, found: usize },
}

/// The texts of a sequence of words.
pub open spec fn word_texts(words: Seq<Word>) -> Seq<Seq<char>> {
    words.map_values(|w: Word| w@)
}

/// The character sequences of a sequence of strings.
pub open spec fn string_texts(strings: Seq<String>) -> Seq<Seq<char>> {
    strings.map_values(|s: String| s@)
}

/// Whether every text has exactly `len` characters.
pub open spec fn all_texts_have_len(texts: Seq<Seq<char>>, len: nat) -> bool {
    forall|i: int| 0 <= i < texts.len() ==> (#[trigger] texts[i]).len() == len
}

/// Converts texts to words, demanding that each has exactly `word_len`
/// characters. Fails on the first text of another length; nothing is
/// returned in part.
pub fn strings_to_words(word_len: usize, texts: &Vec<String>) -> (r: Result<
    Vec<Word>,
    WordError,
>)
    ensures
        r is Ok <==> all_texts_have_len(string_texts(texts@), word_len as nat),
        r matches Ok(words) ==> word_texts(words@) =~= string_texts(texts@),
        r matches Err(WordError::WrongLength { index, expected, found }) ==> {
            &&& 0 <= index < texts@.len()
            &&& string_texts(texts@)[index as int].len() != word_len
            &&& forall|j: int|
                0 <= j < index ==> (#[trigger] string_texts(texts@)[j]).len() == word_len
            &&& expected == word_len
            &&& found as nat == string_texts(texts@)[index as int].len()
        },
{
    let mut words: Vec<Word> = Vec::new();
    let n = texts.len();
    for i in 0..n
        invariant
            n == texts@.len(),
            words@.len() == i,
            word_texts(words@) =~= string_texts(texts@).subrange(0, i as int),
            forall|j: int| 0 <= j < i ==> (#[trigger] string_texts(texts@)[j]).len() == word_len,
    {
        let len = texts[i].as_str().unicode_len();
        if len != word_len {
            proof {
                assert(string_texts(texts@)[i as int].len() != word_len);
            }
            return Err(WordError::WrongLength { index: i, expected: word_len, found: len });
        }
        words.push(Word { text: texts[i].clone() });
        proof {
            assert(word_texts(words@) =~= string_texts(texts@).subrange(0, i + 1));
        }
    }
    proof {
        assert(string_texts(texts@).subrange(0, n as int) =~= string_texts(texts@));
    }
    Ok(words)
}

/// The re-stringification of words: each word's text, in the words' order.
pub fn words_to_strings(words: &Vec<Word>) -> (r: Vec<String>)
    ensures
        string_texts(r@) =~= word_texts(words@),
{
    let mut strings: Vec<String> = Vec::new();
    let n = words.len();
    for i in 0..n
        invariant
            n == words@.len(),
            strings@.len() == i,
            string_texts(strings@) =~= word_texts(words@).subrange(0, i as int),
    {
        strings.push(words[i].text.clone());
        proof {
            assert(string_texts(strings@) =~= word_texts(words@).subrange(0, i + 1));
        }
    }
    proof {
        assert(word_texts(words@).subrange(0, n as int) =~= word_texts(words@));
    }
    strings
}

/// Round trip: when conversion succeeds, re-stringification returns the
/// original texts unchanged. `words` stands for what `strings_to_words`
/// returned on `strings`, and `back` for what `words_to_strings` returned
/// on those words, each described by its contract.
pub proof fn lemma_conversion_round_trip(strings: Seq<String>, words: Seq<Word>, back: Seq<String>)
    requires
        word_texts(words) =~= string_texts(strings),
        string_texts(back) =~= word_texts(words),
    ensures
        string_texts(back) =~= string_texts(strings),
{
}

} // verus!
