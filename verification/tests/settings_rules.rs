use utranslate::settings::{is_known_engine, Settings, KNOWN_ENGINES};

#[test]
fn rejects_equal_languages_and_empty_engine_chain() {
    let mut settings = Settings::default();
    settings.secondary_lang = settings.primary_lang.clone();
    assert!(settings
        .validate()
        .unwrap_err()
        .contains("должны отличаться"));

    settings.secondary_lang = "en".into();
    settings.engines.clear();
    assert!(settings.validate().unwrap_err().contains("хотя бы один"));
}

#[test]
fn knows_supported_translation_engines() {
    for engine in KNOWN_ENGINES {
        assert!(is_known_engine(engine));
    }
    assert!(!is_known_engine("deepl"));
}

#[test]
fn broken_settings_are_repaired_field_by_field() {
    // The stored file had hotkeyPopup "Ctrl+Shift+9", hotkeyReplace "Ctrl+Alt+R", equal
    // languages "ru"/"ru", engines ["deepl", "google"], theme "dark", fontSize 17; the
    // fields it lacked take their defaults.
    let stored = Settings {
        hotkey_popup: "Ctrl+Shift+9".into(),
        hotkey_replace: "Ctrl+Alt+R".into(),
        primary_lang: "ru".into(),
        secondary_lang: "ru".into(),
        engines: vec!["deepl".into(), "google".into()],
        theme: "dark".into(),
        font_size: 17,
        ..Settings::default()
    };
    let repaired = stored.sanitized();

    // One field was broken; everything else the user set is kept.
    assert_eq!(repaired.hotkey_popup, "Ctrl+Shift+9");
    assert_eq!(repaired.theme, "dark");
    assert_eq!(repaired.font_size, 17);
    assert_eq!(repaired.engines, vec!["google".to_string()]);
    assert_eq!(repaired.secondary_lang, "en");
    assert!(repaired.validate().is_ok());

    let no_engines = Settings {
        engines: vec!["deepl".into()],
        primary_lang: "en".into(),
        secondary_lang: "en".into(),
        ..Settings::default()
    }
    .sanitized();
    assert_eq!(no_engines.engines, Settings::default().engines);
    assert_eq!(no_engines.secondary_lang, "ru");
    assert!(no_engines.validate().is_ok());
}
