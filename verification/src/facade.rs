//! The facade: the two operations offered across the boundary, working on
//! plain text values and translating to and from the engine's words.
//!
//! Each call is a pure request and response; the facade keeps no state and
//! performs no filtering of its own beyond the translation.

use vstd::prelude::*;
use crate::engine::{spec_guess, Engine};
use crate::word::{
    all_texts_have_len,
    string_texts,
    strings_to_words,
    words_to_strings,
    WordError,
};

verus! {

/// The engine's candidate words before any attempt, as text, verbatim and
/// in engine order. Non-empty whenever the vocabulary is non-empty.
pub fn suggest(engine: &Engine) -> (r: Vec<String>)
    ensures
        string_texts(r@) =~= engine.vocab(),
        engine.vocab().len() > 0 ==> r@.len() > 0,
{
    let suggestions = engine.suggest_words();
    words_to_strings(&suggestions)
}

/// The engine's next guesses given the attempts made so far, as text, in
/// engine order. Every attempt must be a text of the vocabulary's word
/// length; the first of another length fails the whole call, and nothing
/// partial is returned.
pub fn guess(engine: &Engine, strings: Vec<String>) -> (r: Result<Vec<String>, WordError>)
    ensures
        r is Ok <==> all_texts_have_len(string_texts(strings@), engine.word_len()),
        r matches Ok(out) ==> string_texts(out@) =~= spec_guess(
            engine.vocab(),
            string_texts(strings@),
        ),
        r matches Err(WordError::WrongLength { index, expected, found }) ==> {
            &&& 0 <= index < strings@.len()
            &&& string_texts(strings@)[index as int].len() != engine.word_len()
            &&& forall|j: int|
                0 <= j < index ==> (#[trigger] string_texts(strings@)[j]).len()
                    == engine.word_len()
            &&& expected as nat == engine.word_len()
            &&& found as nat == string_texts(strings@)[index as int].len()
        },
{
    let previous_words = match strings_to_words(engine.word_length(), &strings) {
        Ok(words) => words,
        Err(e) => {
            return Err(e);
        },
    };
    let guesses = engine.guess_word(&previous_words);
    Ok(words_to_strings(&guesses))
}

} // verus!
