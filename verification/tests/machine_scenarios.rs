use utranslate::capture::{Captured, InputContext, PasteOutcome};
use utranslate::capture_flow::{
    focus_context_step, focus_wait_step, popup_hidden_step, popup_restore_check, CaptureAction,
    CaptureEvent, CaptureFlow, FocusWait, PasteAction, PasteEvent, PasteFlow,
};
use utranslate::engines::{Alternative, Translation};
use utranslate::policy::TranslateResult;
use utranslate::screen_capture::{PointI, RectI};
use utranslate::screen_translation::{
    focused_own_window, restore_plan, OwnWindowFocus, OwnWindowsSnapshot, RegionBounds,
    ScreenAction, ScreenEvent, ScreenFlow,
};
use utranslate::selection_flow::{Action, SelectionAction, SelectionEvent, SelectionFlow};
use utranslate::selector::{
    focus_window_index, selection_result, Outcome, SelectorEvent, SelectorMachine,
};

fn translation(text: &str) -> Translation {
    Translation {
        text: text.into(),
        detected: "en".into(),
        target: "ru".into(),
        engine: "google".into(),
        alternatives: vec![Alternative {
            pos: "noun".into(),
            terms: vec!["мир".into()],
        }],
        fallback_from: None,
    }
}

fn result(text: &str) -> TranslateResult {
    TranslateResult {
        translation: translation(text),
        history_id: Some(5),
        word_mode: false,
        is_favorite: false,
        request_id: None,
    }
}

fn rect(left: i32, top: i32, right: i32, bottom: i32) -> RectI {
    RectI { left, top, right, bottom }
}

fn snapshot(popup_visible: bool) -> OwnWindowsSnapshot {
    OwnWindowsSnapshot {
        main_visible: true,
        popup_visible,
        focused: Some(OwnWindowFocus::Main),
    }
}

#[test]
fn screen_request_runs_from_selection_to_translation() {
    let mut flow = ScreenFlow::new(9, "ru".into(), "en".into());
    assert!(matches!(flow.step(ScreenEvent::Started { current: true }), ScreenAction::BeginAndPrepare));
    assert!(matches!(
        flow.step(ScreenEvent::Prepared { result: Ok(Some(snapshot(true))) }),
        ScreenAction::WaitAck
    ));
    assert!(matches!(
        flow.step(ScreenEvent::AckWaited { acknowledged: true, current: true }),
        ScreenAction::Hide { .. }
    ));
    assert!(matches!(flow.step(ScreenEvent::Hidden { result: Ok(77) }), ScreenAction::Select));
    let bounds = RegionBounds { left: 10, top: 20, height: 30 };
    match flow.step(ScreenEvent::Selected { result: Ok(Some(bounds)), current: true }) {
        ScreenAction::ShowProgress { target } => assert_eq!(target, "ru"),
        _ => panic!("expected the recognizing popup"),
    }
    assert!(matches!(
        flow.step(ScreenEvent::ProgressShown { result: Ok(()), current: true }),
        ScreenAction::Pause
    ));
    match flow.step(ScreenEvent::Paused { current: true }) {
        ScreenAction::Place { anchor } => assert_eq!(anchor, bounds),
        _ => panic!("expected placing"),
    }
    assert!(matches!(
        flow.step(ScreenEvent::Placed { result: Ok(()), current: true }),
        ScreenAction::ReleaseAndResolve
    ));
    assert!(matches!(
        flow.step(ScreenEvent::Resolved { result: Ok(()), current: true }),
        ScreenAction::Recognize
    ));
    match flow.step(ScreenEvent::Recognized { result: Ok("hello".into()), current: true }) {
        ScreenAction::Detect { text } => assert_eq!(text, "hello"),
        _ => panic!("expected detection"),
    }
    match flow.step(ScreenEvent::Detected { hint: Some("ru".into()), current: true }) {
        ScreenAction::Announce { text, target, hint } => {
            assert_eq!(text, "hello");
            // Text already in the primary language goes to the secondary one.
            assert_eq!(target, "en");
            assert_eq!(hint.as_deref(), Some("ru"));
        }
        _ => panic!("expected the recognized text"),
    }
    match flow.step(ScreenEvent::Announced { current: true }) {
        ScreenAction::Translate { text, target } => {
            assert_eq!(text, "hello");
            assert_eq!(target, "en");
        }
        _ => panic!("expected translation"),
    }
    match flow.step(ScreenEvent::Translated { result: Ok(result("привет")), current: true }) {
        ScreenAction::EmitResultAndStop { result } => {
            assert_eq!(result.request_id, Some(9));
            assert_eq!(result.translation.text, "привет");
        }
        _ => panic!("expected the result"),
    }
    assert!(flow.is_done());
}

#[test]
fn screen_request_brings_windows_back_and_stays_silent_when_stale() {
    let mut flow = ScreenFlow::new(1, "ru".into(), "en".into());
    flow.step(ScreenEvent::Started { current: true });
    flow.step(ScreenEvent::Prepared { result: Ok(Some(snapshot(false))) });
    flow.step(ScreenEvent::Checked { current: true });
    flow.step(ScreenEvent::Hidden { result: Ok(5) });
    match flow.step(ScreenEvent::Selected { result: Ok(None), current: true }) {
        ScreenAction::RestoreAndStop { before_selector, .. } => assert_eq!(before_selector, Some(5)),
        _ => panic!("a cancelled selection restores the windows"),
    }

    let mut waiting = ScreenFlow::new(2, "ru".into(), "en".into());
    waiting.step(ScreenEvent::Started { current: true });
    waiting.step(ScreenEvent::Prepared { result: Ok(Some(snapshot(true))) });
    assert!(matches!(
        waiting.step(ScreenEvent::AckWaited { acknowledged: false, current: true }),
        ScreenAction::ResumePopupAndStop
    ));

    let mut stale = ScreenFlow::new(3, "ru".into(), "en".into());
    assert!(matches!(stale.step(ScreenEvent::Started { current: false }), ScreenAction::Stop));

    let mut failing = ScreenFlow::new(4, "ru".into(), "en".into());
    failing.step(ScreenEvent::Started { current: true });
    failing.step(ScreenEvent::Prepared { result: Ok(Some(snapshot(false))) });
    failing.step(ScreenEvent::Checked { current: true });
    failing.step(ScreenEvent::Hidden { result: Ok(5) });
    failing.step(ScreenEvent::Selected { result: Ok(Some(RegionBounds { left: 0, top: 0, height: 1 })), current: true });
    failing.step(ScreenEvent::ProgressShown { result: Ok(()), current: true });
    failing.step(ScreenEvent::Paused { current: true });
    match failing.step(ScreenEvent::Placed { result: Err("нет окна".into()), current: true }) {
        ScreenAction::EmitErrorRestoreAndStop { message, .. } => {
            assert_eq!(message, "Не удалось показать окно распознавания: нет окна")
        }
        _ => panic!("expected the placing error"),
    }

    let mut empty = ScreenFlow::new(6, "ru".into(), "en".into());
    empty.step(ScreenEvent::Started { current: true });
    empty.step(ScreenEvent::Prepared { result: Ok(Some(snapshot(false))) });
    empty.step(ScreenEvent::Checked { current: true });
    empty.step(ScreenEvent::Hidden { result: Ok(5) });
    empty.step(ScreenEvent::Selected { result: Ok(Some(RegionBounds { left: 0, top: 0, height: 1 })), current: true });
    empty.step(ScreenEvent::ProgressShown { result: Ok(()), current: true });
    empty.step(ScreenEvent::Paused { current: true });
    empty.step(ScreenEvent::Placed { result: Ok(()), current: true });
    empty.step(ScreenEvent::Resolved { result: Ok(()), current: true });
    match empty.step(ScreenEvent::Recognized { result: Ok("  ".into()), current: true }) {
        ScreenAction::EmitErrorAndStop { message } => {
            assert_eq!(message, "Текст на снимке не найден. Выберите область с текстом ещё раз.")
        }
        _ => panic!("expected the no-text error"),
    }
}

#[test]
fn focus_goes_back_only_to_visible_windows_and_only_when_nobody_took_it() {
    assert_eq!(focused_own_window(true, true, true, true), Some(OwnWindowFocus::Main));
    assert_eq!(focused_own_window(false, true, true, true), Some(OwnWindowFocus::Popup));
    assert_eq!(focused_own_window(true, false, false, true), None);
    let plan = restore_plan(snapshot(true), 41, 41);
    assert!(plan.activate && plan.focus_main && plan.resume_popup && plan.show_main);
    let plan = restore_plan(snapshot(false), 41, 52);
    assert!(!plan.activate && !plan.focus_main && !plan.resume_popup);
}

#[test]
fn selector_accepts_a_drag_and_ignores_everything_after() {
    let desktop = rect(0, 0, 100, 100);
    let mut m = SelectorMachine::new(desktop, vec![desktop], None, false).unwrap();
    let fx = m.step(SelectorEvent::LeftDown { point: Some(PointI { x: 10, y: 10 }), now: 5 });
    assert!(fx.set_capture && fx.redraw);
    let fx = m.step(SelectorEvent::LeftUp { point: Some(PointI { x: 40, y: 30 }), now: 9 });
    assert!(fx.release_capture && fx.freeze.is_some() && !fx.post_quit);
    assert_eq!(m.selection(), Some(rect(10, 10, 40, 30)));
    // The outcome is fixed: a late Escape changes nothing.
    let fx = m.step(SelectorEvent::Escape);
    assert!(!fx.post_quit);
    assert_eq!(m.selection(), Some(rect(10, 10, 40, 30)));
    // The exit animation takes 90 ms, then the loop is told to end once.
    assert!(!m.step(SelectorEvent::Tick { now: 50 }).post_quit);
    assert!(m.step(SelectorEvent::Tick { now: 99 }).post_quit);
    assert!(!m.step(SelectorEvent::Tick { now: 200 }).post_quit);
}

#[test]
fn selector_keeps_a_click_open_and_cancels_on_escape() {
    let desktop = rect(0, 0, 100, 100);
    assert!(SelectorMachine::new(desktop, vec![], None, false).is_err());
    let mut m = SelectorMachine::new(desktop, vec![desktop], None, true).unwrap();
    m.step(SelectorEvent::LeftDown { point: Some(PointI { x: 10, y: 10 }), now: 1 });
    let fx = m.step(SelectorEvent::LeftUp { point: Some(PointI { x: 11, y: 11 }), now: 2 });
    assert!(fx.release_capture && !fx.post_quit);
    assert!(m.outcome.is_none());
    let fx = m.step(SelectorEvent::Escape);
    assert!(fx.post_quit);
    assert_eq!(m.outcome, Some(Outcome::Cancelled));
    assert_eq!(m.selection(), None);
}

#[test]
fn selector_focuses_the_monitor_under_the_cursor() {
    let monitors = [rect(-100, 0, 0, 100), rect(0, 0, 100, 100)];
    assert_eq!(focus_window_index(&monitors, Some(PointI { x: 50, y: 50 })), Some(1));
    assert_eq!(focus_window_index(&monitors, Some(PointI { x: 500, y: 50 })), Some(0));
    assert_eq!(focus_window_index(&monitors, None), Some(0));
    assert_eq!(focus_window_index(&[], None), None);
    let pixels = [1u8, 2, 3, 4];
    let crop = selection_result(Some(Outcome::Accepted { rect: rect(0, 0, 1, 1) }), &pixels, rect(0, 0, 1, 1))
        .unwrap()
        .unwrap();
    assert_eq!(crop.rgba, vec![3, 2, 1, 255]);
    assert!(selection_result(Some(Outcome::Cancelled), &pixels, rect(0, 0, 1, 1)).unwrap().is_none());
}

fn ctx(fg: isize) -> InputContext {
    InputContext::new(fg, 2, 3, 4)
}

#[test]
fn replace_hotkey_pastes_the_translation_with_the_original_spacing() {
    let mut flow = SelectionFlow::new(Action::Replace, 4, "ru".into(), "en".into());
    let cap = Captured { text: Some("  hello\n".into()), context: ctx(1), clipboard_replaced: false };
    match flow.step(SelectionEvent::Captured { result: Ok(cap) }) {
        SelectionAction::TranslateForReplace { text } => assert_eq!(text, "  hello\n"),
        _ => panic!("expected translation"),
    }
    match flow.step(SelectionEvent::Translated { result: Ok(result("привет")), current: false }) {
        SelectionAction::Paste { replacement, source, .. } => {
            assert_eq!(replacement, "  привет\n");
            assert_eq!(source, "  hello\n");
        }
        _ => panic!("expected paste"),
    }
    match flow.step(SelectionEvent::Pasted { result: Ok(PasteOutcome::ClipboardRestored) }) {
        SelectionAction::ToastAndStop { text } => assert_eq!(text, "привет"),
        _ => panic!("expected toast"),
    }
}

#[test]
fn popup_hotkey_shows_current_results_only() {
    let mut flow = SelectionFlow::new(Action::Popup, 8, "ru".into(), "en".into());
    let cap = Captured { text: Some("hello".into()), context: ctx(1), clipboard_replaced: false };
    assert!(matches!(flow.step(SelectionEvent::Captured { result: Ok(cap) }), SelectionAction::Detect { .. }));
    match flow.step(SelectionEvent::Detected { hint: Some("en".into()) }) {
        SelectionAction::ShowAndTranslate { target, .. } => assert_eq!(target, "ru"),
        _ => panic!("expected the popup"),
    }
    assert!(matches!(
        flow.step(SelectionEvent::Translated { result: Ok(result("привет")), current: false }),
        SelectionAction::Stop
    ));

    let mut window = SelectionFlow::new(Action::Window, 9, "ru".into(), "en".into());
    assert!(matches!(
        window.step(SelectionEvent::Captured { result: Err("нет выделения".into()) }),
        SelectionAction::ShowMainAndStop
    ));
    let mut popup = SelectionFlow::new(Action::Popup, 10, "ru".into(), "en".into());
    match popup.step(SelectionEvent::Captured { result: Err("нет выделения".into()) }) {
        SelectionAction::ShowErrorAndStop { text, message, .. } => {
            assert_eq!(text, "");
            assert_eq!(message, "нет выделения");
        }
        _ => panic!("expected the popup error"),
    }
}

#[test]
fn copy_is_aborted_and_clipboard_restored_when_the_field_changes() {
    let mut flow = CaptureFlow::new();
    assert!(matches!(flow.step(CaptureEvent::Prepared { result: Ok(ctx(1)) }), CaptureAction::ReadContext));
    assert!(matches!(
        flow.step(CaptureEvent::BeforeCopy { result: Ok(InputContext::new(1, 2, 3, 5)) }),
        CaptureAction::RestoreClipboard
    ));
    match flow.step(CaptureEvent::Restored { result: Err("занят".into()) }) {
        CaptureAction::Finish { result } => assert_eq!(
            result.err().as_deref(),
            Some("Фокус или выделение изменились перед копированием. занят")
        ),
        _ => panic!("expected the merged error"),
    }
}

#[test]
fn paste_goes_only_over_the_unchanged_selection() {
    let mut flow = PasteFlow::new(ctx(1), "hello".into());
    assert!(matches!(flow.step(PasteEvent::Target { result: Ok(ctx(1)) }), PasteAction::VerifySelection));
    let changed = Captured { text: Some("other".into()), context: ctx(1), clipboard_replaced: false };
    match flow.step(PasteEvent::Verified { result: Ok(changed) }) {
        PasteAction::Finish { result } => assert_eq!(
            result.err().as_deref(),
            Some("Фокус или выделенный текст изменились; замена отменена")
        ),
        _ => panic!("a changed selection must not be pasted over"),
    }

    let mut ok = PasteFlow::new(ctx(1), "hello".into());
    ok.step(PasteEvent::Target { result: Ok(ctx(1)) });
    let same = Captured { text: Some("hello".into()), context: ctx(1), clipboard_replaced: false };
    assert!(matches!(ok.step(PasteEvent::Verified { result: Ok(same) }), PasteAction::Prepare));
    assert!(matches!(ok.step(PasteEvent::Prepared { result: Ok(ctx(1)) }), PasteAction::Write));
    assert!(matches!(ok.step(PasteEvent::Written { result: Ok(()) }), PasteAction::ReadTargetBeforeInput));
    assert!(matches!(ok.step(PasteEvent::BeforeInput { result: Ok(ctx(1)) }), PasteAction::SendPaste));
    assert!(matches!(ok.step(PasteEvent::Sent { result: Ok(()) }), PasteAction::FinishPaste));
    match ok.step(PasteEvent::Finished { outcome: PasteOutcome::ClipboardRestored, result: Ok(ctx(1)) }) {
        PasteAction::Finish { result } => assert_eq!(result, Ok(PasteOutcome::ClipboardRestored)),
        _ => panic!("expected success"),
    }
}

#[test]
fn focus_returns_to_the_original_field_within_the_time_limit() {
    assert!(popup_restore_check(false, true, true, true).is_err());
    assert_eq!(
        popup_restore_check(true, false, true, true).unwrap_err(),
        "Фокус уже перешёл в другое окно; замена отменена"
    );
    assert!(popup_restore_check(true, true, true, true).is_ok());
    assert_eq!(popup_hidden_step(10, 20, 10), Ok(false));
    assert_eq!(popup_hidden_step(0, 20, 10), Ok(true));
    assert!(popup_hidden_step(30, 20, 10).is_err());
    assert!(matches!(focus_wait_step(0, 10, 20, 100), FocusWait::Retry));
    assert!(matches!(focus_wait_step(0, 10, 20, 350), FocusWait::Failed { .. }));
    assert!(matches!(focus_wait_step(30, 10, 20, 0), FocusWait::Failed { .. }));
    assert!(matches!(focus_wait_step(10, 10, 20, 0), FocusWait::ReadContext));
    assert_eq!(focus_context_step(&ctx(10), Ok(InputContext::new(10, 2, 3, 99)), 0), Some(Ok(InputContext::new(10, 2, 3, 99))));
    assert_eq!(focus_context_step(&ctx(10), Ok(ctx(11)), 0), None);
    assert!(matches!(focus_context_step(&ctx(10), Ok(ctx(11)), 400), Some(Err(_))));
}
