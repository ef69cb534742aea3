//! The checks around copying a selection and pasting over it, as machines: the system
//! calls (clipboard, key presses, focus) are made outside and reported back; every
//! decision and every message is made here.

use vstd::prelude::*;
use crate::capture::{
    popup_restore_action, replacement_unchanged, same_target, same_target_spec, Captured,
    InputContext, PasteOutcome, PopupRestoreAction,
};
use crate::copy_poll::merge_restore_error;

verus! {

pub const CHANGED_BEFORE_COPY: &'static str = "Фокус или выделение изменились перед копированием";

pub const TARGET_CHANGED: &'static str = "Фокус или выделение изменились; замена отменена";

pub const SELECTION_GONE: &'static str = "Выделение больше не активно; замена отменена";

pub const SELECTION_CHANGED: &'static str =
    "Фокус или выделенный текст изменились; замена отменена";

pub const FIELD_CHANGED_BEFORE_PASTE: &'static str =
    "Активное поле изменилось перед вставкой; замена отменена";

pub const FIELD_CHANGED_DURING_PASTE: &'static str = "Активное поле изменилось во время вставки";

pub const POPUP_CLOSED: &'static str = "Окно перевода уже закрыто; замена отменена";

pub const FOCUS_MOVED: &'static str = "Фокус уже перешёл в другое окно; замена отменена";

pub const ORIGINAL_CHANGED: &'static str = "Исходное поле изменилось; замена отменена";

pub const FOCUS_NOT_RETURNED: &'static str =
    "Не удалось вернуть фокус в исходное поле; замена отменена";

/// How long focus may take to come back to the original field.
pub const FOCUS_RETURN_MS: u64 = 350;

/// An error, followed by the restore failure if the clipboard could not be put back.
pub open spec fn with_restore(error: Seq<char>, restore: Result<(), String>) -> Seq<char> {
    match restore {
        Ok(()) => error,
        Err(r) => error + ". "@ + r@,
    }
}

fn merged(error: String, restore: Result<(), String>) -> (m: String)
    ensures
        m@ == with_restore(error@, restore),
{
    match merge_restore_error(restore, Some(error)) {
        Err(m) => m,
        Ok(()) => String::new(),
    }
}

#[derive(Clone, Copy, Debug, PartialEq, Eq, Structural)]
pub enum CaptureStage {
    Preparing,
    BeforeCopy,
    Copying,
    Polling,
    Restoring,
    Done,
}

pub enum CaptureEvent {
    /// The clipboard was saved, the modifiers released, the target read and our marker
    /// written.
    Prepared { result: Result<InputContext, String> },
    /// The target as read right before Ctrl+C.
    BeforeCopy { result: Result<InputContext, String> },
    /// Ctrl+C was sent (or not).
    Sent { result: Result<(), String> },
    /// The copy was polled, the clipboard restored and the target confirmed.
    Polled { result: Result<Captured, String> },
    /// The clipboard was restored after a failure.
    Restored { result: Result<(), String> },
}

pub enum CaptureAction {
    Prepare,
    ReadContext,
    SendCopy,
    PollCopy { target: InputContext },
    /// Put the saved clipboard back over our marker, then report.
    RestoreClipboard,
    Finish { result: Result<Captured, String> },
}

/// Copying the selection with Ctrl+C.
pub struct CaptureFlow {
    pub stage: CaptureStage,
    pub target: InputContext,
    pub pending_error: String,
}

pub open spec fn capture_step(f: CaptureFlow, e: CaptureEvent, g: CaptureFlow, a: CaptureAction) -> bool {
    match (f.stage, e) {
        (CaptureStage::Preparing, CaptureEvent::Prepared { result }) => match result {
            Err(m) => g.stage == CaptureStage::Done && (a matches CaptureAction::Finish { result: r }
                && r == Err::<Captured, String>(m)),
            Ok(t) => g.stage == CaptureStage::BeforeCopy && g.target == t && a is ReadContext,
        },
        (CaptureStage::BeforeCopy, CaptureEvent::BeforeCopy { result }) => match result {
            Err(m) => g.stage == CaptureStage::Restoring && g.pending_error == m && a is RestoreClipboard,
            Ok(c) => if same_target_spec(f.target, c) && f.target.last_input_spec() == c.last_input_spec() {
                g.stage == CaptureStage::Copying && g.target == f.target && a is SendCopy
            } else {
                g.stage == CaptureStage::Restoring && g.pending_error@ == CHANGED_BEFORE_COPY@
                    && a is RestoreClipboard
            },
        },
        (CaptureStage::Copying, CaptureEvent::Sent { result }) => match result {
            Err(m) => g.stage == CaptureStage::Restoring && g.pending_error == m && a is RestoreClipboard,
            Ok(()) => g.stage == CaptureStage::Polling && a == CaptureAction::PollCopy {
                target: f.target,
            },
        },
        (CaptureStage::Polling, CaptureEvent::Polled { result }) => g.stage == CaptureStage::Done
            && a == CaptureAction::Finish { result },
        (CaptureStage::Restoring, CaptureEvent::Restored { result }) => g.stage == CaptureStage::Done
            && (a matches CaptureAction::Finish { result: Err(m) } && m@ == with_restore(
            f.pending_error@,
            result,
        )),
        _ => g.stage == CaptureStage::Done && a is Finish,
    }
}

impl CaptureFlow {
    pub fn new() -> (f: Self)
        ensures
            f.stage == CaptureStage::Preparing,
    {
        CaptureFlow {
            stage: CaptureStage::Preparing,
            target: InputContext::new(0, 0, 0, 0),
            pending_error: String::new(),
        }
    }

    pub fn step(&mut self, event: CaptureEvent) -> (a: CaptureAction)
        ensures
            capture_step(*old(self), event, *final(self), a),
    {
        let stage = self.stage;
        match (stage, event) {
            (CaptureStage::Preparing, CaptureEvent::Prepared { result }) => match result {
                Err(m) => {
                    self.stage = CaptureStage::Done;
                    CaptureAction::Finish { result: Err(m) }
                },
                Ok(t) => {
                    self.target = t;
                    self.stage = CaptureStage::BeforeCopy;
                    CaptureAction::ReadContext
                },
            },
            (CaptureStage::BeforeCopy, CaptureEvent::BeforeCopy { result }) => match result {
                Err(m) => {
                    self.pending_error = m;
                    self.stage = CaptureStage::Restoring;
                    CaptureAction::RestoreClipboard
                },
                Ok(c) => {
                    if same_target(&self.target, &c) && self.target.last_input() == c.last_input() {
                        self.stage = CaptureStage::Copying;
                        CaptureAction::SendCopy
                    } else {
                        self.pending_error = CHANGED_BEFORE_COPY.to_owned();
                        self.stage = CaptureStage::Restoring;
                        CaptureAction::RestoreClipboard
                    }
                },
            },
            (CaptureStage::Copying, CaptureEvent::Sent { result }) => match result {
                Err(m) => {
                    self.pending_error = m;
                    self.stage = CaptureStage::Restoring;
                    CaptureAction::RestoreClipboard
                },
                Ok(()) => {
                    self.stage = CaptureStage::Polling;
                    CaptureAction::PollCopy { target: self.target }
                },
            },
            (CaptureStage::Polling, CaptureEvent::Polled { result }) => {
                self.stage = CaptureStage::Done;
                CaptureAction::Finish { result }
            },
            (CaptureStage::Restoring, CaptureEvent::Restored { result }) => {
                self.stage = CaptureStage::Done;
                let mut error = String::new();
                std::mem::swap(&mut error, &mut self.pending_error);
                CaptureAction::Finish { result: Err(merged(error, result)) }
            },
            _ => {
                self.stage = CaptureStage::Done;
                CaptureAction::Finish { result: Err(String::new()) }
            },
        }
    }
}

/// Ctrl+C is sent only to the field read when the capture began, in the same input epoch;
/// and once our marker is on the clipboard, every failure puts the user's clipboard back.
pub proof fn law_copy_goes_to_the_captured_field(
    f: CaptureFlow,
    e: CaptureEvent,
    g: CaptureFlow,
    a: CaptureAction,
)
    requires
        capture_step(f, e, g, a),
    ensures
        a is SendCopy ==> (e matches CaptureEvent::BeforeCopy { result: Ok(c) } && same_target_spec(
            f.target,
            c,
        ) && f.target.last_input_spec() == c.last_input_spec()),
        (f.stage == CaptureStage::BeforeCopy && e is BeforeCopy) || (f.stage
            == CaptureStage::Copying && e is Sent) ==> !(a is Finish),
{
}

#[derive(Clone, Copy, Debug, PartialEq, Eq, Structural)]
pub enum PasteStage {
    CheckingTarget,
    Verifying,
    Preparing,
    Writing,
    BeforeInput,
    Sending,
    Finishing,
    Restoring,
    Done,
}

pub enum PasteEvent {
    /// The field that has the focus now.
    Target { result: Result<InputContext, String> },
    /// The selection copied again right before the paste.
    Verified { result: Result<Captured, String> },
    /// The clipboard was saved, the modifiers released and the field read again.
    Prepared { result: Result<InputContext, String> },
    /// The replacement was written to the clipboard.
    Written { result: Result<(), String> },
    /// The field right before Ctrl+V.
    BeforeInput { result: Result<InputContext, String> },
    /// Ctrl+V was sent (or not).
    Sent { result: Result<(), String> },
    /// After the pause the clipboard was given back or kept, and the field read again.
    Finished { outcome: PasteOutcome, result: Result<InputContext, String> },
    /// The clipboard was restored after a failure.
    Restored { result: Result<(), String> },
}

pub enum PasteAction {
    ReadTarget,
    /// Copy the selection again to compare it with the original text.
    VerifySelection,
    /// Save the clipboard, wait for the modifiers, read the field.
    Prepare,
    /// Write the replacement to the clipboard.
    Write,
    ReadTargetBeforeInput,
    SendPaste,
    /// Wait, restore the clipboard unless someone else wrote it, read the field.
    FinishPaste,
    RestoreClipboard,
    Finish { result: Result<PasteOutcome, String> },
}

/// Pasting the replacement over the original selection.
pub struct PasteFlow {
    pub stage: PasteStage,
    pub original: InputContext,
    pub original_text: String,
    pub selection_checked: bool,
    pub pending_error: String,
}

pub open spec fn paste_step(f: PasteFlow, e: PasteEvent, g: PasteFlow, a: PasteAction) -> bool {
    &&& g.original == f.original
    &&& g.original_text == f.original_text
    &&& match (f.stage, e) {
        (PasteStage::CheckingTarget, PasteEvent::Target { result }) => match result {
            Err(m) => g.stage == PasteStage::Done && (a matches PasteAction::Finish { result: r }
                && r == Err::<PasteOutcome, String>(m)),
            Ok(c) => if same_target_spec(f.original, c) {
                g.stage == PasteStage::Verifying && a is VerifySelection && g.selection_checked
                    == f.selection_checked
            } else {
                g.stage == PasteStage::Done && (a matches PasteAction::Finish { result: Err(m) }
                    && m@ == TARGET_CHANGED@)
            },
        },
        (PasteStage::Verifying, PasteEvent::Verified { result }) => match result {
            Err(m) => g.stage == PasteStage::Done && (a matches PasteAction::Finish { result: r }
                && r == Err::<PasteOutcome, String>(m)),
            Ok(cap) => match cap.text {
                None => g.stage == PasteStage::Done && (a matches PasteAction::Finish {
                    result: Err(m),
                } && m@ == SELECTION_GONE@),
                Some(t) => if same_target_spec(f.original, cap.context) && f.original_text@ == t@ {
                    g.stage == PasteStage::Preparing && a is Prepare && g.selection_checked
                } else {
                    g.stage == PasteStage::Done && (a matches PasteAction::Finish {
                        result: Err(m),
                    } && m@ == SELECTION_CHANGED@)
                },
            },
        },
        (PasteStage::Preparing, PasteEvent::Prepared { result }) => match result {
            Err(m) => g.stage == PasteStage::Done && (a matches PasteAction::Finish { result: r }
                && r == Err::<PasteOutcome, String>(m)),
            Ok(c) => if same_target_spec(f.original, c) {
                g.stage == PasteStage::Writing && a is Write && g.selection_checked
                    == f.selection_checked
            } else {
                g.stage == PasteStage::Done && (a matches PasteAction::Finish { result: Err(m) }
                    && m@ == FIELD_CHANGED_BEFORE_PASTE@)
            },
        },
        (PasteStage::Writing, PasteEvent::Written { result }) => match result {
            Err(m) => g.stage == PasteStage::Done && (a matches PasteAction::Finish { result: r }
                && r == Err::<PasteOutcome, String>(m)),
            Ok(()) => g.stage == PasteStage::BeforeInput && a is ReadTargetBeforeInput
                && g.selection_checked == f.selection_checked,
        },
        (PasteStage::BeforeInput, PasteEvent::BeforeInput { result }) => match result {
            Err(m) => g.stage == PasteStage::Restoring && g.pending_error == m && a is RestoreClipboard,
            Ok(c) => if same_target_spec(f.original, c) {
                g.stage == PasteStage::Sending && a is SendPaste && g.selection_checked
                    == f.selection_checked
            } else {
                g.stage == PasteStage::Restoring && g.pending_error@ == FIELD_CHANGED_BEFORE_PASTE@
                    && a is RestoreClipboard
            },
        },
        (PasteStage::Sending, PasteEvent::Sent { result }) => match result {
            Err(m) => g.stage == PasteStage::Restoring && g.pending_error == m && a is RestoreClipboard,
            Ok(()) => g.stage == PasteStage::Finishing && a is FinishPaste && g.selection_checked
                == f.selection_checked,
        },
        (PasteStage::Finishing, PasteEvent::Finished { outcome, result }) => g.stage == PasteStage::Done
            && match result {
            Err(m) => a matches PasteAction::Finish { result: r } && r == Err::<PasteOutcome, String>(m),
            Ok(c) => if same_target_spec(f.original, c) {
                a matches PasteAction::Finish { result: r } && r == Ok::<PasteOutcome, String>(outcome)
            } else {
                a matches PasteAction::Finish { result: Err(m) } && m@ == FIELD_CHANGED_DURING_PASTE@
            },
        },
        (PasteStage::Restoring, PasteEvent::Restored { result }) => g.stage == PasteStage::Done
            && (a matches PasteAction::Finish { result: Err(m) } && m@ == with_restore(
            f.pending_error@,
            result,
        )),
        _ => g.stage == PasteStage::Done && a is Finish,
    }
}

impl PasteFlow {
    pub fn new(original: InputContext, original_text: String) -> (f: Self)
        ensures
            f.stage == PasteStage::CheckingTarget,
            f.original == original,
            f.original_text == original_text,
            !f.selection_checked,
    {
        PasteFlow {
            stage: PasteStage::CheckingTarget,
            original,
            original_text,
            selection_checked: false,
            pending_error: String::new(),
        }
    }

    fn fail(&mut self, message: &str) -> (a: PasteAction)
        ensures
            final(self).stage == PasteStage::Done,
            final(self).original == old(self).original,
            final(self).original_text == old(self).original_text,
            a matches PasteAction::Finish { result: Err(m) } && m@ == message@,
    {
        self.stage = PasteStage::Done;
        PasteAction::Finish { result: Err(message.to_owned()) }
    }

    pub fn step(&mut self, event: PasteEvent) -> (a: PasteAction)
        ensures
            paste_step(*old(self), event, *final(self), a),
    {
        let stage = self.stage;
        match (stage, event) {
            (PasteStage::CheckingTarget, PasteEvent::Target { result }) => match result {
                Err(m) => {
                    self.stage = PasteStage::Done;
                    PasteAction::Finish { result: Err(m) }
                },
                Ok(c) => {
                    if same_target(&self.original, &c) {
                        self.stage = PasteStage::Verifying;
                        PasteAction::VerifySelection
                    } else {
                        self.fail(TARGET_CHANGED)
                    }
                },
            },
            (PasteStage::Verifying, PasteEvent::Verified { result }) => match result {
                Err(m) => {
                    self.stage = PasteStage::Done;
                    PasteAction::Finish { result: Err(m) }
                },
                Ok(cap) => match &cap.text {
                    None => self.fail(SELECTION_GONE),
                    Some(t) => {
                        if replacement_unchanged(
                            &self.original,
                            &cap.context,
                            self.original_text.as_str(),
                            t.as_str(),
                        ) {
                            self.selection_checked = true;
                            self.stage = PasteStage::Preparing;
                            PasteAction::Prepare
                        } else {
                            self.fail(SELECTION_CHANGED)
                        }
                    },
                },
            },
            (PasteStage::Preparing, PasteEvent::Prepared { result }) => match result {
                Err(m) => {
                    self.stage = PasteStage::Done;
                    PasteAction::Finish { result: Err(m) }
                },
                Ok(c) => {
                    if same_target(&self.original, &c) {
                        self.stage = PasteStage::Writing;
                        PasteAction::Write
                    } else {
                        self.fail(FIELD_CHANGED_BEFORE_PASTE)
                    }
                },
            },
            (PasteStage::Writing, PasteEvent::Written { result }) => match result {
                Err(m) => {
                    self.stage = PasteStage::Done;
                    PasteAction::Finish { result: Err(m) }
                },
                Ok(()) => {
                    self.stage = PasteStage::BeforeInput;
                    PasteAction::ReadTargetBeforeInput
                },
            },
            (PasteStage::BeforeInput, PasteEvent::BeforeInput { result }) => match result {
                Err(m) => {
                    self.pending_error = m;
                    self.stage = PasteStage::Restoring;
                    PasteAction::RestoreClipboard
                },
                Ok(c) => {
                    if same_target(&self.original, &c) {
                        self.stage = PasteStage::Sending;
                        PasteAction::SendPaste
                    } else {
                        self.pending_error = FIELD_CHANGED_BEFORE_PASTE.to_owned();
                        self.stage = PasteStage::Restoring;
                        PasteAction::RestoreClipboard
                    }
                },
            },
            (PasteStage::Sending, PasteEvent::Sent { result }) => match result {
                Err(m) => {
                    self.pending_error = m;
                    self.stage = PasteStage::Restoring;
                    PasteAction::RestoreClipboard
                },
                Ok(()) => {
                    self.stage = PasteStage::Finishing;
                    PasteAction::FinishPaste
                },
            },
            (PasteStage::Finishing, PasteEvent::Finished { outcome, result }) => match result {
                Err(m) => {
                    self.stage = PasteStage::Done;
                    PasteAction::Finish { result: Err(m) }
                },
                Ok(c) => {
                    if same_target(&self.original, &c) {
                        self.stage = PasteStage::Done;
                        PasteAction::Finish { result: Ok(outcome) }
                    } else {
                        self.fail(FIELD_CHANGED_DURING_PASTE)
                    }
                },
            },
            (PasteStage::Restoring, PasteEvent::Restored { result }) => {
                self.stage = PasteStage::Done;
                let mut error = String::new();
                std::mem::swap(&mut error, &mut self.pending_error);
                PasteAction::Finish { result: Err(merged(error, result)) }
            },
            _ => {
                self.stage = PasteStage::Done;
                PasteAction::Finish { result: Err(String::new()) }
            },
        }
    }
}

/// The stages after the selection was copied again and found unchanged.
pub open spec fn after_verification(s: PasteStage) -> bool {
    s == PasteStage::Preparing || s == PasteStage::Writing || s == PasteStage::BeforeInput
        || s == PasteStage::Sending || s == PasteStage::Finishing
}

/// Ctrl+V is sent only into the original field, and only after the selection was copied
/// again and found to be exactly the original text in that field.
pub proof fn law_paste_only_over_the_unchanged_selection(
    f: PasteFlow,
    e: PasteEvent,
    g: PasteFlow,
    a: PasteAction,
)
    requires
        paste_step(f, e, g, a),
        after_verification(f.stage) ==> f.selection_checked,
    ensures
        after_verification(g.stage) ==> g.selection_checked,
        a is SendPaste ==> f.selection_checked && (e matches PasteEvent::BeforeInput {
            result: Ok(c),
        } && same_target_spec(f.original, c)),
        a is Write ==> f.selection_checked,
{
}

/// Before focus is handed back from the popup: the request must come from the visible
/// popup, the popup must be in front, and the original window and control must still
/// belong to the original process.
pub fn popup_restore_check(
    popup_visible_and_ours: bool,
    popup_in_front: bool,
    original_window_exists: bool,
    identity_valid: bool,
) -> (r: Result<(), String>)
    ensures
        !popup_visible_and_ours ==> (r matches Err(m) && m@ == POPUP_CLOSED@),
        popup_visible_and_ours && !popup_in_front ==> (r matches Err(m) && m@ == FOCUS_MOVED@),
        popup_visible_and_ours && popup_in_front && !(original_window_exists && identity_valid)
            ==> (r matches Err(m) && m@ == ORIGINAL_CHANGED@),
        popup_visible_and_ours && popup_in_front && original_window_exists && identity_valid
            ==> r is Ok,
{
    if !popup_visible_and_ours {
        return Err(POPUP_CLOSED.to_owned());
    }
    if !popup_in_front {
        return Err(FOCUS_MOVED.to_owned());
    }
    if !(original_window_exists && identity_valid) {
        return Err(ORIGINAL_CHANGED.to_owned());
    }
    Ok(())
}

/// What to do once the popup is hidden, by the window now in front.
pub fn popup_hidden_step(foreground: isize, popup: isize, original: isize) -> (r: Result<bool, String>)
    ensures
        foreground == original ==> r == Ok::<bool, String>(false),
        foreground != original && (foreground == popup || foreground == 0) ==> r == Ok::<
            bool,
            String,
        >(true),
        foreground != original && foreground != popup && foreground != 0 ==> (r matches Err(m)
            && m@ == FOCUS_MOVED@),
{
    match popup_restore_action(foreground, popup, original) {
        PopupRestoreAction::AlreadyRestored => Ok(false),
        PopupRestoreAction::RestoreOriginal => Ok(true),
        PopupRestoreAction::Abort => Err(FOCUS_MOVED.to_owned()),
    }
}

/// One look at the window in front while focus returns to the original field.
pub enum FocusWait {
    /// Look again after a short pause.
    Retry,
    /// Read the field of the window in front.
    ReadContext,
    Failed { message: String },
}

pub fn focus_wait_step(foreground: isize, original: isize, popup: isize, elapsed_ms: u64) -> (r: FocusWait)
    ensures
        foreground == 0 && elapsed_ms >= FOCUS_RETURN_MS ==> (r matches FocusWait::Failed { message }
            && message@ == FOCUS_NOT_RETURNED@),
        foreground == 0 && elapsed_ms < FOCUS_RETURN_MS ==> r is Retry,
        foreground != 0 && foreground != original && foreground != popup ==> (r matches FocusWait::Failed {
            message,
        } && message@ == FOCUS_MOVED@),
        foreground != 0 && (foreground == original || foreground == popup) ==> r is ReadContext,
{
    if foreground == 0 {
        if elapsed_ms >= FOCUS_RETURN_MS {
            FocusWait::Failed { message: FOCUS_NOT_RETURNED.to_owned() }
        } else {
            FocusWait::Retry
        }
    } else if foreground != original && foreground != popup {
        FocusWait::Failed { message: FOCUS_MOVED.to_owned() }
    } else {
        FocusWait::ReadContext
    }
}

/// The field read in front decides: the original field is back (a new valid input epoch),
/// or wait until the time is up.
pub fn focus_context_step(original: &InputContext, current: Result<InputContext, String>, elapsed_ms: u64) -> (r:
    Option<Result<InputContext, String>>)
    ensures
        match current {
            Err(m) => r == Some(Err::<InputContext, String>(m)),
            Ok(c) => if same_target_spec(*original, c) {
                r == Some(Ok::<InputContext, String>(c))
            } else if elapsed_ms >= FOCUS_RETURN_MS {
                r matches Some(Err(m)) && m@ == FOCUS_NOT_RETURNED@
            } else {
                r is None
            },
        },
{
    match current {
        Err(m) => Some(Err(m)),
        Ok(c) => {
            if same_target(original, &c) {
                Some(Ok(c))
            } else if elapsed_ms >= FOCUS_RETURN_MS {
                Some(Err(FOCUS_NOT_RETURNED.to_owned()))
            } else {
                None
            }
        },
    }
}

} // verus!
