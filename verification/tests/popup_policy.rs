use utranslate::capture::PasteOutcome;
use utranslate::policy::{
    hotkeys_should_be_active, paste_toast_text, popup_command_origin_is_valid, request_matches,
    screen_command_origin_is_valid, should_auto_swap, toast_text, translation_order,
    validate_translation_edit, PopupCaptureStore, MAX_POPUP_REPLACEMENT_BYTES,
};
use utranslate::settings::Settings;

#[test]
fn collapses_whitespace_and_cuts_at_40() {
    assert_eq!(toast_text("две\nстроки"), "две строки");
    assert_eq!(toast_text("  край  "), "край");
    // 45 Cyrillic characters: the cut counts characters, not bytes.
    let long = "я".repeat(45);
    assert_eq!(toast_text(&long), format!("{}…", "я".repeat(40)));
    assert_eq!(toast_text(&"я".repeat(40)).chars().count(), 40);
    assert_eq!(
        paste_toast_text("ignored", PasteOutcome::ClipboardPreserved),
        "Вставка отправлена · буфер обмена не восстановлен"
    );
}

#[test]
fn popup_completion_must_match_latest_request() {
    assert!(request_matches(7, 7));
    assert!(!request_matches(8, 7));
}

#[test]
fn popup_replace_rejects_wrong_or_hidden_command_window() {
    assert!(popup_command_origin_is_valid("popup", true));
    assert!(!popup_command_origin_is_valid("main", true));
    assert!(!popup_command_origin_is_valid("popup", false));
}

#[test]
fn popup_replace_requires_current_generation_and_exact_source() {
    let mut store = PopupCaptureStore::default();
    store.set(7, "source".into(), "private-context");

    assert!(store.take_for_replace(8, 7, "source", "displayed".into()).is_err());
    assert!(store.take_for_replace(7, 7, "other", "displayed".into()).is_err());

    let (session, displayed) = store
        .take_for_replace(7, 7, "source", "  displayed exactly\n".into())
        .unwrap();
    assert_eq!(session.context, "private-context");
    assert_eq!(displayed, "  displayed exactly\n");
    assert!(store.take_for_replace(7, 7, "source", "second click".into()).is_err());
}

#[test]
fn popup_replace_rejects_manual_or_invalid_results_without_consuming_capture() {
    let mut manual: PopupCaptureStore<()> = PopupCaptureStore::default();
    assert!(manual.take_for_replace(3, 3, "source", "translation".into()).is_err());

    let mut captured = PopupCaptureStore::default();
    captured.set(3, "source".into(), ());
    assert!(captured.take_for_replace(3, 3, "source", String::new()).is_err());
    assert!(captured.take_for_replace(3, 3, "source", "translation".into()).is_ok());
}

#[test]
fn screen_capture_commands_accept_only_owned_ui_windows() {
    assert!(screen_command_origin_is_valid("main"));
    assert!(screen_command_origin_is_valid("popup"));
    assert!(!screen_command_origin_is_valid("selector"));
    assert!(!screen_command_origin_is_valid("unknown"));
}

#[test]
fn manual_engine_is_single_and_must_be_known_and_enabled() {
    let mut settings = Settings::default();
    assert_eq!(translation_order(&settings, None).unwrap(), settings.engines);
    assert_eq!(
        translation_order(&settings, Some("bing")).unwrap(),
        vec!["bing".to_string()]
    );

    assert!(translation_order(&settings, Some("deepl"))
        .unwrap_err()
        .contains("Неизвестный"));
    settings.engines.retain(|engine| engine != "bing");
    assert!(translation_order(&settings, Some("bing"))
        .unwrap_err()
        .contains("отключён"));
}

#[test]
fn manual_explicit_target_is_never_auto_swapped() {
    assert!(!should_auto_swap("ru", "ru", true, true));
    assert!(should_auto_swap("ru", "ru", true, false));
    assert!(should_auto_swap("ru", "ru", false, true));
    assert!(!should_auto_swap("en", "ru", true, false));
}

#[test]
fn edited_translation_uses_popup_replacement_size_policy() {
    assert!(validate_translation_edit(" \n\t").is_err());
    assert!(validate_translation_edit("готово").is_ok());
    assert!(validate_translation_edit(&"x".repeat(MAX_POPUP_REPLACEMENT_BYTES + 1)).is_err());
}

#[test]
fn hotkey_rule_needs_a_modifier_or_a_function_key() {
    // Parsing a combination belongs to the hotkey plugin; the rule it feeds is checked here.
    assert!(utranslate::policy::hotkey_modifiers_ok(true, false));
    assert!(utranslate::policy::hotkey_modifiers_ok(false, true));
    assert!(!utranslate::policy::hotkey_modifiers_ok(false, false));
    assert!(hotkeys_should_be_active(true, false));
    assert!(!hotkeys_should_be_active(false, false));
    assert!(!hotkeys_should_be_active(true, true));
}
