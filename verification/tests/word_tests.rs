use guess_game_backend::{strings_to_words, words_to_strings, Word, WordError};

fn texts(items: &[&str]) -> Vec<String> {
    items.iter().map(|s| String::from(*s)).collect()
}

#[test]
fn from_text_keeps_the_text() {
    let w = Word::from_text(String::from("crane"));
    assert_eq!(w.text, "crane");
}

#[test]
fn duplicate_keeps_the_text() {
    let w = Word::from_text(String::from("slate"));
    let d = w.duplicate();
    assert_eq!(d.text, "slate");
    assert_eq!(w.text, "slate");
}

#[test]
fn same_text_compares_texts() {
    let a = Word::from_text(String::from("crane"));
    let b = Word::from_text(String::from("crane"));
    let c = Word::from_text(String::from("slate"));
    assert!(a.same_text(&b));
    assert!(!a.same_text(&c));
}

#[test]
fn conversion_round_trip_returns_texts_unchanged() {
    let input = texts(&["crane", "slate", "pride"]);
    let words = strings_to_words(5, &input).unwrap();
    let back = words_to_strings(&words);
    assert_eq!(back, input);
}

#[test]
fn conversion_round_trip_on_unicode_texts() {
    let input = texts(&["копье", "жизнь"]);
    let words = strings_to_words(5, &input).unwrap();
    let back = words_to_strings(&words);
    assert_eq!(back, input);
}

#[test]
fn conversion_counts_characters_not_bytes() {
    // Five Cyrillic letters take ten bytes; the word still counts as five.
    let input = texts(&["слово"]);
    assert!(strings_to_words(5, &input).is_ok());
    assert!(strings_to_words(10, &input).is_err());
}

#[test]
fn conversion_fails_on_first_wrong_length() {
    let input = texts(&["crane", "hi", "slate", "no"]);
    let err = strings_to_words(5, &input).unwrap_err();
    assert_eq!(err, WordError::WrongLength { index: 1, expected: 5, found: 2 });
}

#[test]
fn conversion_of_empty_input_succeeds() {
    let input: Vec<String> = Vec::new();
    let words = strings_to_words(5, &input).unwrap();
    assert!(words.is_empty());
}

#[test]
fn words_to_strings_keeps_order() {
    let words = vec![
        Word::from_text(String::from("one")),
        Word::from_text(String::from("two")),
    ];
    let back = words_to_strings(&words);
    assert_eq!(back, vec![String::from("one"), String::from("two")]);
}
