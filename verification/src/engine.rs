//! The guessing engine: a fixed vocabulary of words of one length, an
//! ordered list of suggestions, and guesses narrowed by the attempts made
//! so far.

use vstd::prelude::*;
use crate::word::{
    all_texts_have_len,
    string_texts,
    strings_to_words,
    word_texts,
    Word,
    WordError,
};

verus! {

/// What the engine guesses from a vocabulary and a history of attempts:
/// the vocabulary's words, in vocabulary order, with every word that was
/// already attempted left out.
pub open spec fn spec_guess(vocab: Seq<Seq<char>>, history: Seq<Seq<char>>) -> Seq<Seq<char>> {
    vocab.filter(|w: Seq<char>| !history.contains(w))
}

/// The guessing engine: an immutable vocabulary, fixed at construction,
/// whose words all have one agreed length.
#[derive(Debug)]
pub struct Engine {
    word_len: usize,
    vocabulary: Vec<Word>,
}

impl Engine {
    /// The number of characters of every word of the vocabulary.
    pub closed spec fn word_len(self) -> nat {
        self.word_len as nat
    }

    /// The vocabulary's texts, in the order the engine suggests them.
    pub closed spec fn vocab(self) -> Seq<Seq<char>> {
        word_texts(self.vocabulary@)
    }

    /// Every word of the vocabulary has the agreed length.
    pub closed spec fn wf(self) -> bool {
        all_texts_have_len(self.vocab(), self.word_len())
    }

    /// Builds an engine over the given vocabulary texts. Every text must
    /// have exactly `word_len` characters; the first that does not is the
    /// error, and no engine is made.
    pub fn new(word_len: usize, texts: &Vec<String>) -> (r: Result<Engine, WordError>)
        ensures
            r is Ok <==> all_texts_have_len(string_texts(texts@), word_len as nat),
            r matches Ok(engine) ==> {
                &&& engine.wf()
                &&& engine.word_len() == word_len
                &&& engine.vocab() =~= string_texts(texts@)
            },
            r matches Err(WordError::WrongLength { index, expected, found }) ==> {
                &&& 0 <= index < texts@.len()
                &&& string_texts(texts@)[index as int].len() != word_len
                &&& forall|j: int|
                    0 <= j < index ==> (#[trigger] string_texts(texts@)[j]).len() == word_len
                &&& expected == word_len
                &&& found as nat == string_texts(texts@)[index as int].len()
            },
    {
        match strings_to_words(word_len, texts) {
            Ok(vocabulary) => Ok(Engine { word_len, vocabulary }),
            Err(e) => Err(e),
        }
    }

    /// The number of characters the vocabulary demands of a word, as a
    /// plain value.
    pub fn word_length(&self) -> (l: usize)
        ensures
            l as nat == self.word_len(),
    {
        self.word_len
    }

    /// The candidate words the engine offers before any attempt: the whole
    /// vocabulary, verbatim and in order. Non-empty whenever the vocabulary
    /// is non-empty.
    pub fn suggest_words(&self) -> (r: Vec<Word>)
        ensures
            word_texts(r@) =~= self.vocab(),
            self.vocab().len() > 0 ==> r@.len() > 0,
    {
        let mut words: Vec<Word> = Vec::new();
        let n = self.vocabulary.len();
        for i in 0..n
            invariant
                n == self.vocabulary@.len(),
                words@.len() == i,
                word_texts(words@) =~= self.vocab().subrange(0, i as int),
        {
            words.push(self.vocabulary[i].duplicate());
            proof {
                assert(word_texts(words@) =~= self.vocab().subrange(0, i + 1));
            }
        }
        proof {
            assert(self.vocab().subrange(0, n as int) =~= self.vocab());
        }
        words
    }

    /// The engine's next guesses, given the words attempted so far: the
    /// vocabulary's words, in order, without those already attempted.
    pub fn guess_word(&self, previous: &Vec<Word>) -> (r: Vec<Word>)
        ensures
            word_texts(r@) =~= spec_guess(self.vocab(), word_texts(previous@)),
    {
        let mut words: Vec<Word> = Vec::new();
        let n = self.vocabulary.len();
        for i in 0..n
            invariant
                n == self.vocabulary@.len(),
                word_texts(words@) =~= spec_guess(
                    self.vocab().subrange(0, i as int),
                    word_texts(previous@),
                ),
        {
            let attempted = contains_same_text(previous, &self.vocabulary[i]);
            if !attempted {
                words.push(self.vocabulary[i].duplicate());
            }
            proof {
                lemma_spec_guess_step(self.vocab(), word_texts(previous@), i as int);
                assert(self.vocab().subrange(0, i + 1).drop_last() =~= self.vocab().subrange(
                    0,
                    i as int,
                ));
                if !attempted {
                    assert(word_texts(words@) =~= spec_guess(
                        self.vocab().subrange(0, i as int),
                        word_texts(previous@),
                    ).push(self.vocab()[i as int]));
                }
            }
        }
        proof {
            assert(self.vocab().subrange(0, n as int) =~= self.vocab());
        }
        words
    }
}

/// Whether some word of `words` carries the same text as `w`.
fn contains_same_text(words: &Vec<Word>, w: &Word) -> (r: bool)
    ensures
        r == word_texts(words@).contains(w@),
{
    let n = words.len();
    for i in 0..n
        invariant
            n == words@.len(),
            forall|j: int| 0 <= j < i ==> word_texts(words@)[j] != w@,
    {
        if words[i].same_text(w) {
            proof {
                assert(word_texts(words@)[i as int] == w@);
            }
            return true;
        }
    }
    false
}

/// Unfolds one step of `spec_guess` along a growing prefix of the
/// vocabulary: the guesses over the prefix of length `i + 1` are those over
/// the prefix of length `i`, with the word at `i` appended exactly when it
/// was not attempted.
proof fn lemma_spec_guess_step(vocab: Seq<Seq<char>>, history: Seq<Seq<char>>, i: int)
    requires
        0 <= i < vocab.len(),
    ensures
        !history.contains(vocab[i]) ==> spec_guess(vocab.subrange(0, i + 1), history)
            =~= spec_guess(vocab.subrange(0, i), history).push(vocab[i]),
        history.contains(vocab[i]) ==> spec_guess(vocab.subrange(0, i + 1), history)
            =~= spec_guess(vocab.subrange(0, i), history),
{
    reveal(Seq::filter);
    let longer = vocab.subrange(0, i + 1);
    assert(longer.drop_last() =~= vocab.subrange(0, i));
    assert(longer.last() == vocab[i]);
}

/// The first guess coincides with the suggestions: with no attempt made,
/// the engine's guesses are exactly its vocabulary, in order.
pub proof fn lemma_first_guess_is_suggestion(vocab: Seq<Seq<char>>)
    ensures
        spec_guess(vocab, Seq::<Seq<char>>::empty()) =~= vocab,
{
    lemma_guess_keeps_unattempted(vocab, Seq::<Seq<char>>::empty());
}

/// Determinism: the guesses are a function of the vocabulary and the
/// attempt history alone, so two results of the same query coincide.
pub proof fn lemma_guess_deterministic(
    vocab: Seq<Seq<char>>,
    history: Seq<Seq<char>>,
    first: Seq<Seq<char>>,
    second: Seq<Seq<char>>,
)
    requires
        first =~= spec_guess(vocab, history),
        second =~= spec_guess(vocab, history),
    ensures
        first =~= second,
{
}

/// A vocabulary none of whose words was attempted comes back whole from a
/// guess.
proof fn lemma_guess_keeps_unattempted(vocab: Seq<Seq<char>>, history: Seq<Seq<char>>)
    requires
        forall|i: int| 0 <= i < vocab.len() ==> !history.contains(#[trigger] vocab[i]),
    ensures
        spec_guess(vocab, history) =~= vocab,
    decreases vocab.len(),
{
    reveal(Seq::filter);
    if vocab.len() > 0 {
        lemma_guess_keeps_unattempted(vocab.drop_last(), history);
        assert(vocab.drop_last().push(vocab.last()) =~= vocab);
    }
}

} // verus!
