//! Backend for a word-guessing game: a vocabulary-backed engine that offers
//! candidate words and narrows them as attempts accumulate, together with a
//! facade that translates between plain text values and the engine's words.

pub mod engine;
pub mod facade;
pub mod word;

pub use engine::Engine;
pub use facade::guess;
pub use facade::suggest;
pub use word::strings_to_words;
pub use word::words_to_strings;
pub use word::Word;
pub use word::WordError;
