use utranslate::engines::{
    between, cache_key, guess_from_detection, is_word_mode, pick_target, word_mode_from_letters,
    GuessedLang,
};

/// The local language guess as the application makes it: the detector's findings, then
/// the library's rule.
fn guess_lang(text: &str) -> Option<&'static str> {
    let info = whatlang::detect(text)?;
    let lang = match info.lang() {
        whatlang::Lang::Eng => GuessedLang::English,
        whatlang::Lang::Rus => GuessedLang::Russian,
        whatlang::Lang::Ukr => GuessedLang::Ukrainian,
        whatlang::Lang::Bel => GuessedLang::Belarusian,
        whatlang::Lang::Deu => GuessedLang::German,
        _ => GuessedLang::Other,
    };
    guess_from_detection(
        lang,
        info.script() == whatlang::Script::Cyrillic,
        info.confidence() >= 0.8,
        info.confidence() >= 0.3,
    )
}

#[test]
fn swap_and_word_mode() {
    assert_eq!(pick_target(Some("ru"), "ru", "en"), "en");
    assert_eq!(pick_target(Some("en"), "ru", "en"), "ru");
    assert_eq!(pick_target(None, "ru", "en"), "ru");
    assert!(is_word_mode("resilient"));
    assert!(is_word_mode("give up"));
    assert!(!is_word_mode("The trick is to lean"));
    assert!(!is_word_mode("v2.0"));
    assert_eq!(between("x IG:\"ABC\" y", "IG:\"", "\"").as_deref(), Some("ABC"));
    assert_eq!(guess_lang("давай созвонимся после обеда"), Some("ru"));
}

#[test]
fn cache_key_tracks_provider_preference_and_source_hint() {
    let google = vec!["google".to_string(), "bing".to_string()];
    let bing = vec!["bing".to_string(), "google".to_string()];
    let google_only = vec!["google".to_string()];
    let base = cache_key("hello", "ru", Some("en"), &google);
    assert_ne!(base, cache_key("hello", "ru", Some("en"), &bing));
    assert_ne!(
        base,
        cache_key("hello", "ru", Some("en"), &google_only),
        "a manual engine choice must not read the automatic chain's cache"
    );
    assert_ne!(base, cache_key("hello", "ru", Some("de"), &google));
}

#[test]
fn dictionary_mode_reads_the_letters_it_is_given() {
    assert!(word_mode_from_letters("  ab c ", &[true, true, false, true]));
    assert!(!word_mode_from_letters("ab", &[true, false]));
    assert!(word_mode_from_letters("a-b", &[true, false, true]));
    assert!(!word_mode_from_letters("a b c", &[true, false, true, false, true]));
}
