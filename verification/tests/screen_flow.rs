use std::time::Duration;

use utranslate::screen_translation::{
    should_restore_focus, validate_recognized_text, ScreenCaptureAck, MAX_SCREEN_TEXT_CHARS,
};

#[test]
fn ack_is_current_and_one_shot() {
    let mut ack = ScreenCaptureAck::default();
    ack.begin(11);
    assert!(ack.acknowledge(10).is_err());
    ack.acknowledge(11).unwrap();
    assert!(ack.acknowledge(11).is_err());
    assert!(ack.wait(11, Duration::from_millis(1)));
    assert!(!ack.wait(11, Duration::from_millis(1)));
}

#[test]
fn recognized_text_must_fit_the_translation_ui_limit() {
    assert!(validate_recognized_text(" \n ".into()).is_err());
    assert!(validate_recognized_text("я".repeat(MAX_SCREEN_TEXT_CHARS)).is_ok());
    let error = validate_recognized_text("я".repeat(MAX_SCREEN_TEXT_CHARS + 1)).unwrap_err();
    assert!(error.contains("поменьше"));
}

#[test]
fn alt_tab_prevents_restoring_focus_to_utranslate() {
    assert!(should_restore_focus(41, 41));
    assert!(!should_restore_focus(41, 52));
    assert!(!should_restore_focus(0, 0));
}
