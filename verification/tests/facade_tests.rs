use guess_game_backend::{guess, suggest, Engine, WordError};

fn texts(items: &[&str]) -> Vec<String> {
    items.iter().map(|s| String::from(*s)).collect()
}

fn engine(items: &[&str]) -> Engine {
    Engine::new(5, &texts(items)).unwrap()
}

#[test]
fn suggest_returns_the_vocabulary_verbatim() {
    let e = engine(&["crane", "slate", "pride"]);
    assert_eq!(suggest(&e), texts(&["crane", "slate", "pride"]));
}

#[test]
fn suggest_is_nonempty_when_the_vocabulary_is() {
    let e = engine(&["crane"]);
    assert!(!suggest(&e).is_empty());
}

#[test]
fn suggest_on_an_empty_vocabulary_is_empty() {
    let e = engine(&[]);
    assert!(suggest(&e).is_empty());
}

#[test]
fn guess_with_no_attempts_matches_suggest() {
    let e = engine(&["crane", "slate", "pride"]);
    assert_eq!(guess(&e, Vec::new()).unwrap(), suggest(&e));
}

#[test]
fn guess_twice_with_the_same_attempts_agrees() {
    let e = engine(&["crane", "slate", "pride"]);
    let first = guess(&e, texts(&["slate"])).unwrap();
    let second = guess(&e, texts(&["slate"])).unwrap();
    assert_eq!(first, second);
}

#[test]
fn guess_drops_attempted_words() {
    let e = engine(&["crane", "slate", "pride"]);
    assert_eq!(guess(&e, texts(&["crane", "pride"])).unwrap(), texts(&["slate"]));
}

#[test]
fn guess_fails_whole_on_a_wrong_length_attempt() {
    let e = engine(&["crane", "slate"]);
    let err = guess(&e, texts(&["crane", "hi"])).unwrap_err();
    assert_eq!(err, WordError::WrongLength { index: 1, expected: 5, found: 2 });
}

#[test]
fn guess_fails_on_a_wrong_length_unicode_attempt() {
    let e = engine(&["crane", "slate"]);
    // Two Cyrillic letters are four bytes but still two characters.
    let err = guess(&e, texts(&["да"])).unwrap_err();
    assert_eq!(err, WordError::WrongLength { index: 0, expected: 5, found: 2 });
}

#[test]
fn guess_on_a_russian_vocabulary() {
    let e = engine(&["копье", "жизнь", "слово"]);
    assert_eq!(suggest(&e), texts(&["копье", "жизнь", "слово"]));
    assert_eq!(guess(&e, texts(&["жизнь"])).unwrap(), texts(&["копье", "слово"]));
}
