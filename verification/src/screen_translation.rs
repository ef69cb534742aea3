//! Translation of a screen region: the limit on recognized text, the popup's
//! acknowledgement that it hid itself, focus restoration after the selector, and the
//! flow of one screen request as a machine from event to next action.

use vstd::prelude::*;
use std::time::Duration;
use crate::capture::str_eq;
use crate::engines::opt_string_view;
use crate::policy::TranslateResult;
use crate::text::{all_ws, chars_of, is_blank};

verus! {

/// Longest recognized text, in characters, that is sent to translation.
pub const MAX_SCREEN_TEXT_CHARS: usize = 5_000;

pub const NO_TEXT_FOUND: &'static str =
    "Текст на снимке не найден. Выберите область с текстом ещё раз.";

pub const TOO_MUCH_TEXT: &'static str =
    "Распознано больше 5000 символов. Выберите область поменьше.";

pub const ACK_STALE: &'static str = "Запрос захвата уже завершён или устарел";

pub const SHOW_FAILED: &'static str = "Не удалось показать окно распознавания: ";

pub const RESOURCES_FAILED: &'static str = "Не удалось открыть файлы распознавания: ";

pub const RECOGNITION_FAILED: &'static str = "Не удалось распознать текст: ";

/// Why recognized text is not translated: nothing but white space, or more than 5000
/// characters.
pub open spec fn recognized_text_error(text: Seq<char>) -> Option<Seq<char>> {
    if all_ws(text) {
        Some(NO_TEXT_FOUND@)
    } else if text.len() > MAX_SCREEN_TEXT_CHARS {
        Some(TOO_MUCH_TEXT@)
    } else {
        None
    }
}

pub fn validate_recognized_text(text: String) -> (r: Result<String, String>)
    ensures
        match recognized_text_error(text@) {
            Some(m) => (r matches Err(e) && e@ == m),
            None => r == Ok::<String, String>(text),
        },
{
    if is_blank(text.as_str()) {
        return Err(NO_TEXT_FOUND.to_owned());
    }
    let chars = chars_of(text.as_str());
    if chars.len() > MAX_SCREEN_TEXT_CHARS {
        return Err(TOO_MUCH_TEXT.to_owned());
    }
    Ok(text)
}

/// The popup's promise that it hid itself for the capture of one request.
#[derive(Clone, Copy, Debug, PartialEq, Eq, Structural)]
pub struct PendingAck {
    pub request_id: u64,
    pub acknowledged: bool,
}

/// At most one capture waits for the popup's acknowledgement at a time.
pub struct ScreenCaptureAck {
    pub pending: Option<PendingAck>,
}

impl Default for ScreenCaptureAck {
    fn default() -> (a: Self)
        ensures
            a.pending is None,
    {
        ScreenCaptureAck { pending: None }
    }
}

/// The request is waiting for the popup and has not been acknowledged yet.
pub open spec fn awaiting(pending: Option<PendingAck>, request_id: u64) -> bool {
    pending matches Some(p) && p.request_id == request_id && !p.acknowledged
}

/// The pending entry belongs to the request.
pub open spec fn belongs(pending: Option<PendingAck>, request_id: u64) -> bool {
    pending matches Some(p) && p.request_id == request_id
}

/// What a wait for the request answers: the popup acknowledged it.
pub open spec fn wait_answer(pending: Option<PendingAck>, request_id: u64) -> bool {
    pending matches Some(p) && p.request_id == request_id && p.acknowledged
}

/// The entry after an accepted acknowledgement.
pub open spec fn acknowledged(request_id: u64) -> Option<PendingAck> {
    Some(PendingAck { request_id, acknowledged: true })
}

/// The entry after the request stopped waiting: its own entry is dropped, another
/// request's entry stays.
pub open spec fn released(pending: Option<PendingAck>, request_id: u64) -> Option<PendingAck> {
    if belongs(pending, request_id) {
        None
    } else {
        pending
    }
}

impl ScreenCaptureAck {
    /// A new capture request starts waiting; an older entry is replaced.
    pub fn begin(&mut self, request_id: u64)
        ensures
            final(self).pending == Some(PendingAck { request_id, acknowledged: false }),
    {
        self.pending = Some(PendingAck { request_id, acknowledged: false });
    }

    pub fn is_awaiting(&self, request_id: u64) -> (r: bool)
        ensures
            r == awaiting(self.pending, request_id),
    {
        match self.pending {
            Some(p) => p.request_id == request_id && !p.acknowledged,
            None => false,
        }
    }

    /// The popup confirms that it hid itself: accepted once, and only for the request
    /// that waits.
    pub fn acknowledge(&mut self, request_id: u64) -> (r: Result<(), String>)
        ensures
            awaiting(old(self).pending, request_id) ==> r is Ok && final(self).pending
                == acknowledged(request_id),
            !awaiting(old(self).pending, request_id) ==> (r matches Err(e) && e@ == ACK_STALE@)
                && final(self).pending == old(self).pending,
    {
        if self.is_awaiting(request_id) {
            self.pending = Some(PendingAck { request_id, acknowledged: true });
            Ok(())
        } else {
            Err(ACK_STALE.to_owned())
        }
    }

    /// Ends the wait for the request: answers whether the popup acknowledged it and drops
    /// the request's entry. With the state held exclusively nothing can arrive while
    /// waiting, so the answer is decided by the state; a holder shared between threads
    /// blocks on `is_awaiting` for at most `timeout` before it calls this.
    pub fn wait(&mut self, request_id: u64, timeout: Duration) -> (r: bool)
        ensures
            r == wait_answer(old(self).pending, request_id),
            final(self).pending == released(old(self).pending, request_id),
    {
        let answer = match self.pending {
            Some(p) => p.request_id == request_id && p.acknowledged,
            None => false,
        };
        self.clear(request_id);
        answer
    }

    /// The request gives up waiting.
    pub fn clear(&mut self, request_id: u64)
        ensures
            final(self).pending == released(old(self).pending, request_id),
    {
        let mine = match self.pending {
            Some(p) => p.request_id == request_id,
            None => false,
        };
        if mine {
            self.pending = None;
        }
    }
}

/// An acknowledgement is accepted at most once: after it, the same request is no longer
/// waiting, and a request that does not wait is refused.
pub proof fn law_acknowledgement_is_one_shot(pending: Option<PendingAck>, request_id: u64, other: u64)
    requires
        other != request_id,
    ensures
        !awaiting(acknowledged(request_id), request_id),
        !awaiting(Some(PendingAck { request_id, acknowledged: false }), other),
{
}

/// A wait answers once: after it the request's entry is gone, so a second wait for the
/// same request answers `false`, and an acknowledged request answers `true` the first time.
pub proof fn law_wait_is_one_shot(pending: Option<PendingAck>, request_id: u64)
    ensures
        !wait_answer(released(pending, request_id), request_id),
        !belongs(released(pending, request_id), request_id),
        wait_answer(acknowledged(request_id), request_id),
{
}

/// Focus goes back to our window only if the foreground window did not change while the
/// selector was open (an Alt+Tab away must win).
pub fn should_restore_focus(before_selector: isize, after_selector: isize) -> (r: bool)
    ensures
        r == (before_selector != 0 && before_selector == after_selector),
{
    before_selector != 0 && before_selector == after_selector
}

/// Which of our windows had the focus before the capture.
#[derive(Clone, Copy, Debug, PartialEq, Eq, Structural)]
pub enum OwnWindowFocus {
    Main,
    Popup,
}

/// Our windows as the capture found them.
#[derive(Clone, Copy, Debug, PartialEq, Eq, Structural)]
pub struct OwnWindowsSnapshot {
    pub main_visible: bool,
    pub popup_visible: bool,
    pub focused: Option<OwnWindowFocus>,
}

/// A window counts as focused only while it is visible; the main window is asked first.
pub fn focused_own_window(
    main_visible: bool,
    main_focused: bool,
    popup_visible: bool,
    popup_focused: bool,
) -> (r: Option<OwnWindowFocus>)
    ensures
        r == (if main_visible && main_focused {
            Some(OwnWindowFocus::Main)
        } else if popup_visible && popup_focused {
            Some(OwnWindowFocus::Popup)
        } else {
            None
        }),
{
    if main_visible && main_focused {
        Some(OwnWindowFocus::Main)
    } else if popup_visible && popup_focused {
        Some(OwnWindowFocus::Popup)
    } else {
        None
    }
}

/// What bringing our windows back after a capture does.
#[derive(Clone, Copy, Debug, PartialEq, Eq, Structural)]
pub struct RestorePlan {
    /// Tell the popup that the capture is over.
    pub resume_popup: bool,
    /// Show the main window again.
    pub show_main: bool,
    /// Show the popup again.
    pub restore_popup: bool,
    /// Windows may take the focus (otherwise they are shown without activation).
    pub activate: bool,
    /// Give the focus back to the main window.
    pub focus_main: bool,
}

/// Windows come back as they were; the focus only if nobody else took it meanwhile.
pub fn restore_plan(snapshot: OwnWindowsSnapshot, before_selector: isize, after_selector: isize) -> (r:
    RestorePlan)
    ensures
        r.resume_popup == snapshot.popup_visible,
        r.restore_popup == snapshot.popup_visible,
        r.show_main == snapshot.main_visible,
        r.activate == (before_selector != 0 && before_selector == after_selector),
        r.focus_main == (r.activate && snapshot.focused == Some(OwnWindowFocus::Main)),
{
    let safe = should_restore_focus(before_selector, after_selector);
    let focus_main = safe && match snapshot.focused {
        Some(OwnWindowFocus::Main) => true,
        _ => false,
    };
    RestorePlan {
        resume_popup: snapshot.popup_visible,
        show_main: snapshot.main_visible,
        restore_popup: snapshot.popup_visible,
        activate: safe,
        focus_main,
    }
}

/// Where the selected region lies: the popup is placed under it.
#[derive(Clone, Copy, Debug, PartialEq, Eq, Structural)]
pub struct RegionBounds {
    pub left: i32,
    pub top: i32,
    pub height: u32,
}

/// What the flow of one screen request waits for.
#[derive(Clone, Copy, Debug, PartialEq, Eq, Structural)]
pub enum ScreenStage {
    Fresh,
    Preparing,
    AwaitingAck,
    Checking,
    Hiding,
    Selecting,
    ShowingProgress,
    Pausing,
    Placing,
    Resolving,
    Recognizing,
    Detecting,
    Announcing,
    Translating,
    Done,
}

/// What the outside world reports back; `current` says whether the request is still the
/// latest one at that moment.
pub enum ScreenEvent {
    Started { current: bool },
    Prepared { result: Result<Option<OwnWindowsSnapshot>, String> },
    AckWaited { acknowledged: bool, current: bool },
    Checked { current: bool },
    Hidden { result: Result<isize, String> },
    Selected { result: Result<Option<RegionBounds>, String>, current: bool },
    ProgressShown { result: Result<(), String>, current: bool },
    Paused { current: bool },
    Placed { result: Result<(), String>, current: bool },
    Resolved { result: Result<(), String>, current: bool },
    Recognized { result: Result<String, String>, current: bool },
    Detected { hint: Option<String>, current: bool },
    Announced { current: bool },
    Translated { result: Result<TranslateResult, String>, current: bool },
}

/// The next thing to do for the request.
pub enum ScreenAction {
    /// Nothing more.
    Stop,
    /// Register the pending acknowledgement, then look at our windows and suspend a
    /// visible popup.
    BeginAndPrepare,
    /// Drop the pending acknowledgement and end.
    ClearAckAndStop,
    /// Wait for the popup to confirm that it hid itself.
    WaitAck,
    /// Drop the pending acknowledgement, then check that the request is current.
    ClearAckAndCheck,
    /// Tell the popup the capture is off, and end.
    ResumePopupAndStop,
    /// Hide our windows and report the foreground window.
    Hide { snapshot: OwnWindowsSnapshot },
    /// Run the region selector.
    Select,
    /// Bring our windows back (`None`: measure the foreground window now), and end.
    RestoreAndStop { snapshot: OwnWindowsSnapshot, before_selector: Option<isize> },
    /// Show the popup in its recognizing state.
    ShowProgress { target: String },
    /// Give the popup a moment, then check that the request is current.
    Pause,
    /// Place the popup under the region.
    Place { anchor: RegionBounds },
    /// Show the message in the popup, bring our windows back, and end.
    EmitErrorRestoreAndStop {
        message: String,
        snapshot: OwnWindowsSnapshot,
        before_selector: isize,
    },
    /// Let the next capture start, and find the recognition files.
    ReleaseAndResolve,
    /// Recognize the text of the region.
    Recognize,
    /// Show the message in the popup, and end.
    EmitErrorAndStop { message: String },
    /// Detect the language of the text.
    Detect { text: String },
    /// Show the recognized text.
    Announce { text: String, target: String, hint: Option<String> },
    /// Translate the text.
    Translate { text: String, target: String },
    /// Show the translation, and end.
    EmitResultAndStop { result: TranslateResult },
}

/// One screen request.
pub struct ScreenFlow {
    pub stage: ScreenStage,
    pub request_id: u64,
    pub primary: String,
    pub secondary: String,
    pub snapshot: OwnWindowsSnapshot,
    pub before_selector: isize,
    pub anchor: RegionBounds,
    pub text: String,
    pub target: String,
}

/// The event reports that the request is no longer current.
pub open spec fn stale(e: ScreenEvent) -> bool {
    match e {
        ScreenEvent::Started { current } => !current,
        ScreenEvent::AckWaited { current, .. } => !current,
        ScreenEvent::Checked { current } => !current,
        ScreenEvent::Selected { current, .. } => !current,
        ScreenEvent::ProgressShown { current, .. } => !current,
        ScreenEvent::Paused { current } => !current,
        ScreenEvent::Placed { current, .. } => !current,
        ScreenEvent::Resolved { current, .. } => !current,
        ScreenEvent::Recognized { current, .. } => !current,
        ScreenEvent::Detected { current, .. } => !current,
        ScreenEvent::Announced { current } => !current,
        ScreenEvent::Translated { current, .. } => !current,
        _ => false,
    }
}

/// The action shows something in the popup.
pub open spec fn touches_popup(a: ScreenAction) -> bool {
    ||| a is ShowProgress
    ||| a is Place
    ||| a is EmitErrorRestoreAndStop
    ||| a is EmitErrorAndStop
    ||| a is Announce
    ||| a is EmitResultAndStop
}

/// The action brings our hidden windows back.
pub open spec fn restores(a: ScreenAction) -> bool {
    a is RestoreAndStop || a is EmitErrorRestoreAndStop
}

/// Stages go forward only.
pub open spec fn rank(s: ScreenStage) -> int {
    match s {
        ScreenStage::Fresh => 0,
        ScreenStage::Preparing => 1,
        ScreenStage::AwaitingAck => 2,
        ScreenStage::Checking => 3,
        ScreenStage::Hiding => 4,
        ScreenStage::Selecting => 5,
        ScreenStage::ShowingProgress => 6,
        ScreenStage::Pausing => 7,
        ScreenStage::Placing => 8,
        ScreenStage::Resolving => 9,
        ScreenStage::Recognizing => 10,
        ScreenStage::Detecting => 11,
        ScreenStage::Announcing => 12,
        ScreenStage::Translating => 13,
        ScreenStage::Done => 14,
    }
}

/// The stage and action that follow an event, field by field; `g` is the flow after it.
pub open spec fn screen_step(f: ScreenFlow, e: ScreenEvent, g: ScreenFlow, a: ScreenAction) -> bool {
    &&& g.request_id == f.request_id
    &&& g.primary == f.primary
    &&& g.secondary == f.secondary
    &&& match (f.stage, e) {
        (ScreenStage::Fresh, ScreenEvent::Started { current }) => if current {
            g.stage == ScreenStage::Preparing && a is BeginAndPrepare
        } else {
            g.stage == ScreenStage::Done && a is Stop
        },
        (ScreenStage::Preparing, ScreenEvent::Prepared { result }) => match result {
            Ok(Some(s)) => g.snapshot == s && if s.popup_visible {
                g.stage == ScreenStage::AwaitingAck && a is WaitAck
            } else {
                g.stage == ScreenStage::Checking && a is ClearAckAndCheck
            },
            _ => g.stage == ScreenStage::Done && a is ClearAckAndStop,
        },
        (ScreenStage::AwaitingAck, ScreenEvent::AckWaited { acknowledged, current }) => if acknowledged
            && current {
            g.stage == ScreenStage::Hiding && a == ScreenAction::Hide { snapshot: f.snapshot }
                && g.snapshot == f.snapshot
        } else {
            g.stage == ScreenStage::Done && a is ResumePopupAndStop
        },
        (ScreenStage::Checking, ScreenEvent::Checked { current }) => if current {
            g.stage == ScreenStage::Hiding && a == ScreenAction::Hide { snapshot: f.snapshot }
                && g.snapshot == f.snapshot
        } else {
            g.stage == ScreenStage::Done && a is Stop
        },
        (ScreenStage::Hiding, ScreenEvent::Hidden { result }) => match result {
            Ok(fg) => g.stage == ScreenStage::Selecting && a is Select && g.before_selector == fg
                && g.snapshot == f.snapshot,
            Err(_) => g.stage == ScreenStage::Done && a == ScreenAction::RestoreAndStop {
                snapshot: f.snapshot,
                before_selector: None,
            },
        },
        (ScreenStage::Selecting, ScreenEvent::Selected { result, current }) => match result {
            Ok(Some(b)) => if current {
                &&& g.stage == ScreenStage::ShowingProgress
                &&& (a matches ScreenAction::ShowProgress { target } && target == f.primary)
                &&& g.anchor == b
                &&& g.snapshot == f.snapshot
                &&& g.before_selector == f.before_selector
            } else {
                g.stage == ScreenStage::Done && a is Stop
            },
            _ => g.stage == ScreenStage::Done && if current {
                a == ScreenAction::RestoreAndStop {
                    snapshot: f.snapshot,
                    before_selector: Some(f.before_selector),
                }
            } else {
                a is Stop
            },
        },
        (ScreenStage::ShowingProgress, ScreenEvent::ProgressShown { result, current }) => match result {
            Ok(()) => g.stage == ScreenStage::Pausing && a is Pause && g.anchor == f.anchor
                && g.snapshot == f.snapshot && g.before_selector == f.before_selector,
            Err(_) => g.stage == ScreenStage::Done && if current {
                a == ScreenAction::RestoreAndStop {
                    snapshot: f.snapshot,
                    before_selector: Some(f.before_selector),
                }
            } else {
                a is Stop
            },
        },
        (ScreenStage::Pausing, ScreenEvent::Paused { current }) => if current {
            g.stage == ScreenStage::Placing && a == ScreenAction::Place { anchor: f.anchor }
                && g.snapshot == f.snapshot && g.before_selector == f.before_selector
        } else {
            g.stage == ScreenStage::Done && a is Stop
        },
        (ScreenStage::Placing, ScreenEvent::Placed { result, current }) => match result {
            Ok(()) => g.stage == ScreenStage::Resolving && a is ReleaseAndResolve,
            Err(error) => g.stage == ScreenStage::Done && if current {
                &&& a matches ScreenAction::EmitErrorRestoreAndStop {
                    message,
                    snapshot,
                    before_selector,
                }
                &&& message@ == SHOW_FAILED@ + error@
                &&& snapshot == f.snapshot
                &&& before_selector == f.before_selector
            } else {
                a is Stop
            },
        },
        (ScreenStage::Resolving, ScreenEvent::Resolved { result, current }) => match result {
            Ok(()) => g.stage == ScreenStage::Recognizing && a is Recognize,
            Err(error) => g.stage == ScreenStage::Done && if current {
                a matches ScreenAction::EmitErrorAndStop { message } && message@ == RESOURCES_FAILED@
                    + error@
            } else {
                a is Stop
            },
        },
        (ScreenStage::Recognizing, ScreenEvent::Recognized { result, current }) => if !current {
            g.stage == ScreenStage::Done && a is Stop
        } else {
            match result {
                Err(error) => g.stage == ScreenStage::Done && (a matches ScreenAction::EmitErrorAndStop {
                    message,
                } && message@ == RECOGNITION_FAILED@ + error@),
                Ok(text) => match recognized_text_error(text@) {
                    Some(m) => g.stage == ScreenStage::Done && (a matches ScreenAction::EmitErrorAndStop {
                        message,
                    } && message@ == m),
                    None => g.stage == ScreenStage::Detecting && g.text == text
                        && a == ScreenAction::Detect { text },
                },
            }
        },
        (ScreenStage::Detecting, ScreenEvent::Detected { hint, current }) => if current {
            &&& g.stage == ScreenStage::Announcing
            &&& g.text == f.text
            &&& g.target == (if opt_string_view(hint) == Some(f.primary@) {
                f.secondary
            } else {
                f.primary
            })
            &&& a == ScreenAction::Announce { text: f.text, target: g.target, hint }
        } else {
            g.stage == ScreenStage::Done && a is Stop
        },
        (ScreenStage::Announcing, ScreenEvent::Announced { current }) => if current {
            g.stage == ScreenStage::Translating && a == ScreenAction::Translate {
                text: f.text,
                target: f.target,
            }
        } else {
            g.stage == ScreenStage::Done && a is Stop
        },
        (ScreenStage::Translating, ScreenEvent::Translated { result, current }) => g.stage
            == ScreenStage::Done && match result {
            Ok(r) => if current {
                a == ScreenAction::EmitResultAndStop {
                    result: TranslateResult { request_id: Some(f.request_id), ..r },
                }
            } else {
                a is Stop
            },
            Err(m) => if current {
                a == ScreenAction::EmitErrorAndStop { message: m }
            } else {
                a is Stop
            },
        },
        _ => g.stage == ScreenStage::Done && a is Stop,
    }
}

fn message_with(prefix: &str, detail: &str) -> (m: String)
    ensures
        m@ == prefix@ + detail@,
{
    let mut m = prefix.to_owned();
    m.append(detail);
    m
}

impl ScreenFlow {
    pub fn new(request_id: u64, primary: String, secondary: String) -> (f: Self)
        ensures
            f.stage == ScreenStage::Fresh,
            f.request_id == request_id,
            f.primary == primary,
            f.secondary == secondary,
    {
        ScreenFlow {
            stage: ScreenStage::Fresh,
            request_id,
            primary,
            secondary,
            snapshot: OwnWindowsSnapshot { main_visible: false, popup_visible: false, focused: None },
            before_selector: 0,
            anchor: RegionBounds { left: 0, top: 0, height: 0 },
            text: String::new(),
            target: String::new(),
        }
    }

    pub fn is_done(&self) -> (r: bool)
        ensures
            r == (self.stage == ScreenStage::Done),
    {
        match self.stage {
            ScreenStage::Done => true,
            _ => false,
        }
    }

    /// Takes the event, moves to the next stage and names the next action.
    pub fn step(&mut self, event: ScreenEvent) -> (a: ScreenAction)
        ensures
            screen_step(*old(self), event, *final(self), a),
    {
        let stage = self.stage;
        match (stage, event) {
            (ScreenStage::Fresh, ScreenEvent::Started { current }) => {
                if current {
                    self.stage = ScreenStage::Preparing;
                    ScreenAction::BeginAndPrepare
                } else {
                    self.stage = ScreenStage::Done;
                    ScreenAction::Stop
                }
            },
            (ScreenStage::Preparing, ScreenEvent::Prepared { result }) => match result {
                Ok(Some(s)) => {
                    self.snapshot = s;
                    if s.popup_visible {
                        self.stage = ScreenStage::AwaitingAck;
                        ScreenAction::WaitAck
                    } else {
                        self.stage = ScreenStage::Checking;
                        ScreenAction::ClearAckAndCheck
                    }
                },
                _ => {
                    self.stage = ScreenStage::Done;
                    ScreenAction::ClearAckAndStop
                },
            },
            (ScreenStage::AwaitingAck, ScreenEvent::AckWaited { acknowledged, current }) => {
                if acknowledged && current {
                    self.stage = ScreenStage::Hiding;
                    ScreenAction::Hide { snapshot: self.snapshot }
                } else {
                    self.stage = ScreenStage::Done;
                    ScreenAction::ResumePopupAndStop
                }
            },
            (ScreenStage::Checking, ScreenEvent::Checked { current }) => {
                if current {
                    self.stage = ScreenStage::Hiding;
                    ScreenAction::Hide { snapshot: self.snapshot }
                } else {
                    self.stage = ScreenStage::Done;
                    ScreenAction::Stop
                }
            },
            (ScreenStage::Hiding, ScreenEvent::Hidden { result }) => match result {
                Ok(fg) => {
                    self.before_selector = fg;
                    self.stage = ScreenStage::Selecting;
                    ScreenAction::Select
                },
                Err(_) => {
                    self.stage = ScreenStage::Done;
                    ScreenAction::RestoreAndStop { snapshot: self.snapshot, before_selector: None }
                },
            },
            (ScreenStage::Selecting, ScreenEvent::Selected { result, current }) => match result {
                Ok(Some(b)) => {
                    if current {
                        self.anchor = b;
                        self.stage = ScreenStage::ShowingProgress;
                        ScreenAction::ShowProgress { target: self.primary.clone() }
                    } else {
                        self.stage = ScreenStage::Done;
                        ScreenAction::Stop
                    }
                },
                _ => {
                    self.stage = ScreenStage::Done;
                    if current {
                        ScreenAction::RestoreAndStop {
                            snapshot: self.snapshot,
                            before_selector: Some(self.before_selector),
                        }
                    } else {
                        ScreenAction::Stop
                    }
                },
            },
            (ScreenStage::ShowingProgress, ScreenEvent::ProgressShown { result, current }) => {
                match result {
                    Ok(()) => {
                        self.stage = ScreenStage::Pausing;
                        ScreenAction::Pause
                    },
                    Err(_) => {
                        self.stage = ScreenStage::Done;
                        if current {
                            ScreenAction::RestoreAndStop {
                                snapshot: self.snapshot,
                                before_selector: Some(self.before_selector),
                            }
                        } else {
                            ScreenAction::Stop
                        }
                    },
                }
            },
            (ScreenStage::Pausing, ScreenEvent::Paused { current }) => {
                if current {
                    self.stage = ScreenStage::Placing;
                    ScreenAction::Place { anchor: self.anchor }
                } else {
                    self.stage = ScreenStage::Done;
                    ScreenAction::Stop
                }
            },
            (ScreenStage::Placing, ScreenEvent::Placed { result, current }) => match result {
                Ok(()) => {
                    self.stage = ScreenStage::Resolving;
                    ScreenAction::ReleaseAndResolve
                },
                Err(error) => {
                    self.stage = ScreenStage::Done;
                    if current {
                        ScreenAction::EmitErrorRestoreAndStop {
                            message: message_with(SHOW_FAILED, error.as_str()),
                            snapshot: self.snapshot,
                            before_selector: self.before_selector,
                        }
                    } else {
                        ScreenAction::Stop
                    }
                },
            },
            (ScreenStage::Resolving, ScreenEvent::Resolved { result, current }) => match result {
                Ok(()) => {
                    self.stage = ScreenStage::Recognizing;
                    ScreenAction::Recognize
                },
                Err(error) => {
                    self.stage = ScreenStage::Done;
                    if current {
                        ScreenAction::EmitErrorAndStop {
                            message: message_with(RESOURCES_FAILED, error.as_str()),
                        }
                    } else {
                        ScreenAction::Stop
                    }
                },
            },
            (ScreenStage::Recognizing, ScreenEvent::Recognized { result, current }) => {
                if !current {
                    self.stage = ScreenStage::Done;
                    return ScreenAction::Stop;
                }
                match result {
                    Err(error) => {
                        self.stage = ScreenStage::Done;
                        ScreenAction::EmitErrorAndStop {
                            message: message_with(RECOGNITION_FAILED, error.as_str()),
                        }
                    },
                    Ok(text) => match validate_recognized_text(text) {
                        Err(message) => {
                            self.stage = ScreenStage::Done;
                            ScreenAction::EmitErrorAndStop { message }
                        },
                        Ok(text) => {
                            self.text = text.clone();
                            self.stage = ScreenStage::Detecting;
                            ScreenAction::Detect { text }
                        },
                    },
                }
            },
            (ScreenStage::Detecting, ScreenEvent::Detected { hint, current }) => {
                if !current {
                    self.stage = ScreenStage::Done;
                    return ScreenAction::Stop;
                }
                let swap = match &hint {
                    Some(h) => str_eq(h.as_str(), self.primary.as_str()),
                    None => false,
                };
                let target = if swap {
                    self.secondary.clone()
                } else {
                    self.primary.clone()
                };
                self.target = target.clone();
                self.stage = ScreenStage::Announcing;
                ScreenAction::Announce { text: self.text.clone(), target, hint }
            },
            (ScreenStage::Announcing, ScreenEvent::Announced { current }) => {
                if current {
                    self.stage = ScreenStage::Translating;
                    ScreenAction::Translate { text: self.text.clone(), target: self.target.clone() }
                } else {
                    self.stage = ScreenStage::Done;
                    ScreenAction::Stop
                }
            },
            (ScreenStage::Translating, ScreenEvent::Translated { result, current }) => {
                self.stage = ScreenStage::Done;
                match result {
                    Ok(r) => {
                        if current {
                            ScreenAction::EmitResultAndStop {
                                result: TranslateResult { request_id: Some(self.request_id), ..r },
                            }
                        } else {
                            ScreenAction::Stop
                        }
                    },
                    Err(m) => {
                        if current {
                            ScreenAction::EmitErrorAndStop { message: m }
                        } else {
                            ScreenAction::Stop
                        }
                    },
                }
            },
            _ => {
                self.stage = ScreenStage::Done;
                ScreenAction::Stop
            },
        }
    }
}

/// A step never goes back: it moves to a later stage or ends the flow, so a request takes
/// at most fifteen steps.
pub proof fn law_flow_moves_forward(f: ScreenFlow, e: ScreenEvent, g: ScreenFlow, a: ScreenAction)
    requires
        screen_step(f, e, g, a),
        f.stage != ScreenStage::Done,
    ensures
        rank(g.stage) > rank(f.stage),
{
}

/// A request that is no longer current never shows anything in the popup.
pub proof fn law_stale_request_stays_silent(f: ScreenFlow, e: ScreenEvent, g: ScreenFlow, a: ScreenAction)
    requires
        screen_step(f, e, g, a),
        stale(e),
    ensures
        !touches_popup(a),
{
}

/// The event is the answer to the action that led to the stage.
pub open spec fn answers(s: ScreenStage, e: ScreenEvent) -> bool {
    match s {
        ScreenStage::Fresh => e is Started,
        ScreenStage::Preparing => e is Prepared,
        ScreenStage::AwaitingAck => e is AckWaited,
        ScreenStage::Checking => e is Checked,
        ScreenStage::Hiding => e is Hidden,
        ScreenStage::Selecting => e is Selected,
        ScreenStage::ShowingProgress => e is ProgressShown,
        ScreenStage::Pausing => e is Paused,
        ScreenStage::Placing => e is Placed,
        ScreenStage::Resolving => e is Resolved,
        ScreenStage::Recognizing => e is Recognized,
        ScreenStage::Detecting => e is Detected,
        ScreenStage::Announcing => e is Announced,
        ScreenStage::Translating => e is Translated,
        ScreenStage::Done => false,
    }
}

/// Once our windows are hidden for the selector, a current request that ends before the
/// popup is placed brings them back.
pub proof fn law_hidden_windows_come_back(f: ScreenFlow, e: ScreenEvent, g: ScreenFlow, a: ScreenAction)
    requires
        screen_step(f, e, g, a),
        f.stage == ScreenStage::Selecting || f.stage == ScreenStage::ShowingProgress
            || f.stage == ScreenStage::Placing,
        answers(f.stage, e),
        !stale(e),
        g.stage == ScreenStage::Done,
    ensures
        restores(a),
{
}

/// A popup that was asked to hide itself is told the capture is off whenever the request
/// ends while waiting for its confirmation, and a pending acknowledgement is dropped
/// whenever preparing the windows fails.
pub proof fn law_suspended_popup_is_resumed(f: ScreenFlow, e: ScreenEvent, g: ScreenFlow, a: ScreenAction)
    requires
        screen_step(f, e, g, a),
        g.stage == ScreenStage::Done,
    ensures
        f.stage == ScreenStage::AwaitingAck && e is AckWaited ==> a is ResumePopupAndStop,
        f.stage == ScreenStage::Preparing && e is Prepared ==> a is ClearAckAndStop,
{
}

} // verus!
