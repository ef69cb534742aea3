use std::collections::VecDeque;

use utranslate::capture::{
    clipboard_restore_decision, format_kind, popup_restore_action, popup_restore_identity_is_valid,
    replacement_unchanged, ClipboardRestoreDecision, FormatKind, InputContext, PopupRestoreAction,
    CF_BITMAP_ID, CF_ENHMETAFILE_ID, CF_PALETTE_ID, CF_PRIVATEFIRST,
};
use utranslate::copy_poll::{
    finish_capture_after_copy, ClipboardTextObservation, CopyObservation, CopyOwnerRelation,
    CopyProbe, RecordedProbe,
};

fn context(foreground: isize, focus: isize, process_id: u32, last_input: u32) -> InputContext {
    InputContext::new(foreground, focus, process_id, last_input)
}

#[test]
fn classifies_common_and_unsafe_clipboard_formats() {
    assert_eq!(format_kind(13), FormatKind::Global); // CF_UNICODETEXT
    assert_eq!(format_kind(8), FormatKind::Global); // CF_DIB
    assert_eq!(format_kind(17), FormatKind::Global); // CF_DIBV5
    assert_eq!(format_kind(15), FormatKind::Global); // CF_HDROP
    assert_eq!(format_kind(0xc001), FormatKind::Global); // registered HTML/RTF/PNG
    assert_eq!(format_kind(CF_BITMAP_ID), FormatKind::Bitmap);
    assert_eq!(format_kind(CF_ENHMETAFILE_ID), FormatKind::EnhMetaFile);
    assert_eq!(format_kind(CF_PALETTE_ID), FormatKind::Unsupported);
    assert_eq!(format_kind(CF_PRIVATEFIRST), FormatKind::Unsupported);
}

#[test]
fn post_paste_restore_accepts_only_our_exact_synthesized_payload() {
    assert_eq!(
        clipboard_restore_decision(10, 13, true, true),
        ClipboardRestoreDecision::Restore
    );
    assert_eq!(
        clipboard_restore_decision(10, 13, false, true),
        ClipboardRestoreDecision::PreserveExternal
    );
    assert_eq!(
        clipboard_restore_decision(10, 13, true, false),
        ClipboardRestoreDecision::PreserveExternal
    );
    assert_eq!(
        clipboard_restore_decision(10, 10, false, false),
        ClipboardRestoreDecision::Restore
    );
}

#[test]
fn replacement_requires_same_control_and_text_but_survives_mouse_movement() {
    let original = context(1, 2, 3, 4);
    assert!(replacement_unchanged(&original, &context(1, 2, 3, 4), "hello", "hello"));
    assert!(replacement_unchanged(&original, &context(1, 2, 3, 99), "hello", "hello"));
    assert!(!replacement_unchanged(&original, &context(1, 9, 3, 4), "hello", "hello"));
    assert!(!replacement_unchanged(&original, &context(9, 2, 3, 4), "hello", "hello"));
    assert!(!replacement_unchanged(&original, &context(1, 2, 9, 4), "hello", "hello"));
    assert!(!replacement_unchanged(&original, &context(1, 2, 3, 4), "hello", "other"));
}

#[test]
fn popup_restore_validates_window_and_control_ownership_before_new_epoch() {
    let original = context(10, 20, 30, 40);
    assert!(popup_restore_identity_is_valid(&original, 30, true, 30));
    assert!(!popup_restore_identity_is_valid(&original, 31, true, 30));
    assert!(!popup_restore_identity_is_valid(&original, 30, false, 30));
    assert!(!popup_restore_identity_is_valid(&original, 30, true, 31));
}

#[test]
fn popup_restore_never_takes_focus_back_from_an_unrelated_window() {
    assert_eq!(popup_restore_action(10, 20, 10), PopupRestoreAction::AlreadyRestored);
    assert_eq!(popup_restore_action(20, 20, 10), PopupRestoreAction::RestoreOriginal);
    assert_eq!(popup_restore_action(0, 20, 10), PopupRestoreAction::RestoreOriginal);
    assert_eq!(popup_restore_action(30, 20, 10), PopupRestoreAction::Abort);
}

/// A scripted probe: queued observations and reads, a pause counter and a log of
/// restores, by which a test sees that the clipboard is given back exactly once.
#[derive(Default)]
struct ScriptedProbe {
    observations: VecDeque<Result<CopyObservation, String>>,
    reads: VecDeque<Result<ClipboardTextObservation, String>>,
    restored: Vec<u32>,
    restore_error: Option<String>,
    waits: usize,
    keep_waiting: bool,
}

impl CopyProbe for ScriptedProbe {
    fn observe(&mut self) -> Result<CopyObservation, String> {
        self.observations
            .pop_front()
            .unwrap_or_else(|| Err("сценарий кончился: observe".into()))
    }

    fn read_text(&mut self) -> Result<ClipboardTextObservation, String> {
        self.reads
            .pop_front()
            .unwrap_or_else(|| Err("сценарий кончился: read_text".into()))
    }

    fn restore(&mut self, sequence: u32) -> Result<(), String> {
        self.restored.push(sequence);
        match &self.restore_error {
            Some(error) => Err(error.clone()),
            None => Ok(()),
        }
    }

    fn wait(&mut self) -> bool {
        self.waits += 1;
        self.keep_waiting
    }
}

fn scripted(
    observations: Vec<Result<CopyObservation, String>>,
    reads: Vec<Result<ClipboardTextObservation, String>>,
) -> ScriptedProbe {
    ScriptedProbe {
        observations: observations.into(),
        reads: reads.into(),
        keep_waiting: true,
        ..Default::default()
    }
}

fn seen(sequence: u32, context: &InputContext) -> Result<CopyObservation, String> {
    Ok(CopyObservation {
        sequence,
        context: context.clone(),
    })
}

fn copied(
    text: &str,
    sequence: u32,
    owner: CopyOwnerRelation,
) -> Result<ClipboardTextObservation, String> {
    Ok(ClipboardTextObservation {
        text: Some(text.to_string()),
        sequence,
        owner,
    })
}

#[test]
fn capture_polling_waits_past_marker_owned_sequence_change() {
    let target = context(11, 12, 13, 14);
    let probe = scripted(
        vec![
            seen(101, &target),
            seen(101, &target),
            seen(102, &target),
            seen(102, &target),
            seen(103, &target),
        ],
        vec![
            copied("marker", 101, CopyOwnerRelation::Marker),
            copied("selected text", 102, CopyOwnerRelation::Target),
        ],
    );

    let mut recorded = RecordedProbe::new(probe);
    let captured = match finish_capture_after_copy(&mut recorded, &target, "marker", 100) {
        Ok(captured) => captured,
        Err(error) => panic!("valid copy rejected with exact regression error: {error}"),
    };
    assert_eq!(captured.text.as_deref(), Some("selected text"));
    assert_eq!(recorded.inner().restored, vec![102]);
}

#[test]
fn capture_polling_accepts_target_that_writes_before_marker_read() {
    let target = context(11, 12, 13, 14);
    let probe = scripted(
        vec![seen(101, &target), seen(102, &target), seen(103, &target)],
        vec![copied("selected text", 102, CopyOwnerRelation::Target)],
    );

    let mut recorded = RecordedProbe::new(probe);
    let captured = finish_capture_after_copy(&mut recorded, &target, "marker", 100)
        .expect("target copy observed during marker read must be accepted");

    assert_eq!(captured.text.as_deref(), Some("selected text"));
    assert_eq!(recorded.inner().restored, vec![102]);
    assert_eq!(recorded.inner().waits, 0, "стабильная копия не должна ждать");
}

#[test]
fn capture_polling_returns_clipboard_before_rejecting_unrelated_change() {
    let target = context(11, 12, 13, 14);
    let probe = scripted(
        vec![seen(101, &target)],
        vec![copied("unrelated", 101, CopyOwnerRelation::Unrelated)],
    );

    let mut recorded = RecordedProbe::new(probe);
    let error = finish_capture_after_copy(&mut recorded, &target, "marker", 100)
        .err()
        .expect("unrelated clipboard owner must be rejected");

    assert_eq!(error, "Контекст копирования изменился; операция отменена");
    assert_eq!(recorded.inner().restored, vec![100]);
}

#[test]
fn capture_polling_returns_clipboard_when_marker_owner_holds_foreign_content() {
    let target = context(11, 12, 13, 14);
    let probe = scripted(
        vec![seen(101, &target)],
        vec![copied("other app state", 101, CopyOwnerRelation::Marker)],
    );

    let mut recorded = RecordedProbe::new(probe);
    let error = finish_capture_after_copy(&mut recorded, &target, "marker", 100)
        .err()
        .expect("same owner HWND with different content must be rejected");

    assert_eq!(error, "Контекст копирования изменился; операция отменена");
    assert_eq!(recorded.inner().restored, vec![100]);
}

#[test]
fn capture_polling_returns_clipboard_after_change_following_marker_read() {
    let target = context(11, 12, 13, 14);
    let probe = scripted(
        vec![seen(101, &target), seen(102, &target), seen(102, &target)],
        vec![
            copied("marker", 101, CopyOwnerRelation::Marker),
            copied("unrelated", 102, CopyOwnerRelation::Unrelated),
        ],
    );

    let mut recorded = RecordedProbe::new(probe);
    let error = finish_capture_after_copy(&mut recorded, &target, "marker", 100)
        .err()
        .expect("unrelated write after marker read must be rejected");

    assert_eq!(error, "Контекст копирования изменился; операция отменена");
    assert_eq!(recorded.inner().restored, vec![100]);
    assert_eq!(recorded.inner().waits, 0, "изменившийся sequence перечитывается без паузы");
}

#[test]
fn capture_polling_returns_clipboard_when_window_probe_fails() {
    let target = context(11, 12, 13, 14);
    let probe = scripted(vec![Err("Не удалось определить активное окно".into())], vec![]);

    let mut recorded = RecordedProbe::new(probe);
    let error = finish_capture_after_copy(&mut recorded, &target, "marker", 100)
        .err()
        .expect("window probe failure must abort the capture");

    assert_eq!(error, "Не удалось определить активное окно");
    assert_eq!(recorded.inner().restored, vec![100], "маркер не должен остаться в буфере");
}

#[test]
fn capture_polling_returns_clipboard_when_text_read_fails() {
    let target = context(11, 12, 13, 14);
    let probe = scripted(
        vec![seen(101, &target)],
        vec![Err("Буфер обмена занят другой программой".into())],
    );

    let mut recorded = RecordedProbe::new(probe);
    let error = finish_capture_after_copy(&mut recorded, &target, "marker", 100)
        .err()
        .expect("clipboard read failure must abort the capture");

    assert_eq!(error, "Буфер обмена занят другой программой");
    assert_eq!(recorded.inner().restored, vec![100], "маркер не должен остаться в буфере");
}

#[test]
fn capture_polling_reports_restore_failure_next_to_the_original_error() {
    let target = context(11, 12, 13, 14);
    let probe = ScriptedProbe {
        observations: VecDeque::from([Err("Не удалось определить активное окно".to_string())]),
        restore_error: Some("Буфер обмена изменился; новое содержимое сохранено".into()),
        ..Default::default()
    };

    let mut recorded = RecordedProbe::new(probe);
    let error = finish_capture_after_copy(&mut recorded, &target, "marker", 100)
        .err()
        .expect("window probe failure must abort the capture");

    assert_eq!(
        error,
        "Не удалось определить активное окно. Буфер обмена изменился; новое содержимое сохранено"
    );
    assert_eq!(recorded.inner().restored, vec![100]);
}

#[test]
fn capture_polling_returns_clipboard_when_copy_never_arrives() {
    let target = context(11, 12, 13, 14);
    let probe = ScriptedProbe {
        observations: VecDeque::from([seen(100, &target)]),
        ..Default::default()
    };

    let mut recorded = RecordedProbe::new(probe);
    let captured = finish_capture_after_copy(&mut recorded, &target, "marker", 100)
        .expect("timeout must return an empty capture, not an error");

    assert!(captured.text.is_none());
    assert_eq!(recorded.inner().restored, vec![100]);
    assert_eq!(recorded.inner().waits, 1);
}
