//! What a hotkey does with the captured selection: open the main window, translate into
//! the popup, or replace the selection with its translation. The flow of one request is
//! a machine from event to next action; capturing, translating and pasting stay outside.

use vstd::prelude::*;
use crate::capture::{str_eq, Captured, InputContext, PasteOutcome};
use crate::engines::opt_string_view;
use crate::policy::{
    paste_toast_text, toast_text_spec, with_edges_spec, with_original_edges, TranslateResult,
    PASTE_SENT_CLIPBOARD_LOST,
};

verus! {

/// What a hotkey asks for.
#[derive(Clone, Copy, Debug, PartialEq, Eq, Structural)]
pub enum Action {
    Popup,
    Replace,
    Window,
    Screen,
}

#[derive(Clone, Copy, Debug, PartialEq, Eq, Structural)]
pub enum SelectionStage {
    Capturing,
    Detecting,
    Translating,
    Pasting,
    Done,
}

/// What the outside world reports back.
pub enum SelectionEvent {
    Captured { result: Result<Captured, String> },
    Detected { hint: Option<String> },
    /// `current`: the request is still the latest popup request.
    Translated { result: Result<TranslateResult, String>, current: bool },
    Pasted { result: Result<PasteOutcome, String> },
}

/// The next thing to do.
pub enum SelectionAction {
    Stop,
    ShowMainAndStop,
    /// Show the main window and put the text into it.
    ShowMainWithTextAndStop { text: String },
    /// Show the popup with the text, place it at the cursor and show the message in it.
    ShowErrorAndStop { text: String, target: String, clipboard_replaced: bool, message: String },
    /// Show an empty popup at the cursor (`window_first`: place the window before filling it).
    ShowEmptyAndStop { target: String, window_first: bool },
    Detect { text: String },
    /// Keep the capture for a later replacement, show the popup at the cursor and translate
    /// the text to the target.
    ShowAndTranslate {
        text: String,
        target: String,
        hint: Option<String>,
        clipboard_replaced: bool,
        context: InputContext,
    },
    /// Translate the text with the automatic target, for replacing it.
    TranslateForReplace { text: String },
    EmitResultAndStop { result: TranslateResult },
    EmitErrorAndStop { message: String },
    /// Paste the replacement over the source text in the captured field.
    Paste { replacement: String, source: String, context: InputContext },
    ToastAndStop { text: String },
}

/// One hotkey request.
pub struct SelectionFlow {
    pub stage: SelectionStage,
    pub action: Action,
    pub request_id: u64,
    pub primary: String,
    pub secondary: String,
    pub text: String,
    pub clipboard_replaced: bool,
    pub context: InputContext,
    pub translation: String,
}

/// The event and the flow before it give the flow after it and the action.
pub open spec fn selection_step(
    f: SelectionFlow,
    e: SelectionEvent,
    g: SelectionFlow,
    a: SelectionAction,
) -> bool {
    &&& g.action == f.action
    &&& g.request_id == f.request_id
    &&& g.primary == f.primary
    &&& g.secondary == f.secondary
    &&& match (f.stage, e) {
        (SelectionStage::Capturing, SelectionEvent::Captured { result }) => match result {
            Err(message) => g.stage == SelectionStage::Done && if f.action == Action::Window {
                a is ShowMainAndStop
            } else {
                &&& a matches SelectionAction::ShowErrorAndStop {
                    text,
                    target,
                    clipboard_replaced,
                    message: m,
                }
                &&& text@ == Seq::<char>::empty()
                &&& target == f.primary
                &&& !clipboard_replaced
                &&& m == message
            },
            Ok(cap) => match f.action {
                Action::Window => g.stage == SelectionStage::Done && match cap.text {
                    Some(t) => a == SelectionAction::ShowMainWithTextAndStop { text: t },
                    None => a is ShowMainAndStop,
                },
                Action::Popup => match cap.text {
                    None => g.stage == SelectionStage::Done && a == SelectionAction::ShowEmptyAndStop {
                        target: f.primary,
                        window_first: false,
                    },
                    Some(t) => {
                        &&& g.stage == SelectionStage::Detecting
                        &&& g.text == t
                        &&& g.clipboard_replaced == cap.clipboard_replaced
                        &&& g.context == cap.context
                        &&& a == SelectionAction::Detect { text: t }
                    },
                },
                Action::Replace => match cap.text {
                    None => g.stage == SelectionStage::Done && a == SelectionAction::ShowEmptyAndStop {
                        target: f.primary,
                        window_first: true,
                    },
                    Some(t) => {
                        &&& g.stage == SelectionStage::Translating
                        &&& g.text == t
                        &&& g.clipboard_replaced == cap.clipboard_replaced
                        &&& g.context == cap.context
                        &&& a == SelectionAction::TranslateForReplace { text: t }
                    },
                },
                Action::Screen => g.stage == SelectionStage::Done && a is Stop,
            },
        },
        (SelectionStage::Detecting, SelectionEvent::Detected { hint }) => {
            let target = if opt_string_view(hint) == Some(f.primary@) {
                f.secondary
            } else {
                f.primary
            };
            &&& g.stage == SelectionStage::Translating
            &&& g.text == f.text
            &&& a == SelectionAction::ShowAndTranslate {
                text: f.text,
                target,
                hint,
                clipboard_replaced: f.clipboard_replaced,
                context: f.context,
            }
        },
        (SelectionStage::Translating, SelectionEvent::Translated { result, current }) => if f.action
            == Action::Replace {
            match result {
                Ok(r) => {
                    &&& g.stage == SelectionStage::Pasting
                    &&& g.translation == r.translation.text
                    &&& g.text == f.text
                    &&& g.context == f.context
                    &&& a matches SelectionAction::Paste { replacement, source, context }
                    &&& replacement@ == with_edges_spec(f.text@, r.translation.text@)
                    &&& source == f.text
                    &&& context == f.context
                },
                Err(message) => g.stage == SelectionStage::Done && a == SelectionAction::ShowErrorAndStop {
                    text: f.text,
                    target: f.primary,
                    clipboard_replaced: f.clipboard_replaced,
                    message,
                },
            }
        } else {
            g.stage == SelectionStage::Done && match result {
                Ok(r) => if current {
                    a == SelectionAction::EmitResultAndStop {
                        result: TranslateResult { request_id: Some(f.request_id), ..r },
                    }
                } else {
                    a is Stop
                },
                Err(message) => if current {
                    a == SelectionAction::EmitErrorAndStop { message }
                } else {
                    a is Stop
                },
            }
        },
        (SelectionStage::Pasting, SelectionEvent::Pasted { result }) => g.stage == SelectionStage::Done
            && match result {
            Ok(outcome) => a matches SelectionAction::ToastAndStop { text } && text@ == (match outcome {
                PasteOutcome::ClipboardRestored => toast_text_spec(f.translation@),
                PasteOutcome::ClipboardPreserved => PASTE_SENT_CLIPBOARD_LOST@,
            }),
            Err(message) => a == SelectionAction::ShowErrorAndStop {
                text: f.text,
                target: f.primary,
                clipboard_replaced: false,
                message,
            },
        },
        _ => g.stage == SelectionStage::Done && a is Stop,
    }
}

impl SelectionFlow {
    pub fn new(action: Action, request_id: u64, primary: String, secondary: String) -> (f: Self)
        ensures
            f.stage == SelectionStage::Capturing,
            f.action == action,
            f.request_id == request_id,
            f.primary == primary,
            f.secondary == secondary,
    {
        SelectionFlow {
            stage: SelectionStage::Capturing,
            action,
            request_id,
            primary,
            secondary,
            text: String::new(),
            clipboard_replaced: false,
            context: InputContext::new(0, 0, 0, 0),
            translation: String::new(),
        }
    }

    pub fn is_done(&self) -> (r: bool)
        ensures
            r == (self.stage == SelectionStage::Done),
    {
        match self.stage {
            SelectionStage::Done => true,
            _ => false,
        }
    }

    /// Takes the event, moves to the next stage and names the next action.
    pub fn step(&mut self, event: SelectionEvent) -> (a: SelectionAction)
        ensures
            selection_step(*old(self), event, *final(self), a),
    {
        let stage = self.stage;
        match (stage, event) {
            (SelectionStage::Capturing, SelectionEvent::Captured { result }) => {
                self.stage = SelectionStage::Done;
                match result {
                    Err(message) => match self.action {
                        Action::Window => SelectionAction::ShowMainAndStop,
                        _ => SelectionAction::ShowErrorAndStop {
                            text: String::new(),
                            target: self.primary.clone(),
                            clipboard_replaced: false,
                            message,
                        },
                    },
                    Ok(cap) => match self.action {
                        Action::Window => match cap.text {
                            Some(t) => SelectionAction::ShowMainWithTextAndStop { text: t },
                            None => SelectionAction::ShowMainAndStop,
                        },
                        Action::Popup => match cap.text {
                            None => SelectionAction::ShowEmptyAndStop {
                                target: self.primary.clone(),
                                window_first: false,
                            },
                            Some(t) => {
                                self.text = t.clone();
                                self.clipboard_replaced = cap.clipboard_replaced;
                                self.context = cap.context;
                                self.stage = SelectionStage::Detecting;
                                SelectionAction::Detect { text: t }
                            },
                        },
                        Action::Replace => match cap.text {
                            None => SelectionAction::ShowEmptyAndStop {
                                target: self.primary.clone(),
                                window_first: true,
                            },
                            Some(t) => {
                                self.text = t.clone();
                                self.clipboard_replaced = cap.clipboard_replaced;
                                self.context = cap.context;
                                self.stage = SelectionStage::Translating;
                                SelectionAction::TranslateForReplace { text: t }
                            },
                        },
                        Action::Screen => SelectionAction::Stop,
                    },
                }
            },
            (SelectionStage::Detecting, SelectionEvent::Detected { hint }) => {
                let swap = match &hint {
                    Some(h) => str_eq(h.as_str(), self.primary.as_str()),
                    None => false,
                };
                let target = if swap {
                    self.secondary.clone()
                } else {
                    self.primary.clone()
                };
                self.stage = SelectionStage::Translating;
                SelectionAction::ShowAndTranslate {
                    text: self.text.clone(),
                    target,
                    hint,
                    clipboard_replaced: self.clipboard_replaced,
                    context: self.context,
                }
            },
            (SelectionStage::Translating, SelectionEvent::Translated { result, current }) => {
                match self.action {
                    Action::Replace => match result {
                        Ok(r) => {
                            let replacement = with_original_edges(
                                self.text.as_str(),
                                r.translation.text.as_str(),
                            );
                            self.translation = r.translation.text;
                            self.stage = SelectionStage::Pasting;
                            SelectionAction::Paste {
                                replacement,
                                source: self.text.clone(),
                                context: self.context,
                            }
                        },
                        Err(message) => {
                            self.stage = SelectionStage::Done;
                            SelectionAction::ShowErrorAndStop {
                                text: self.text.clone(),
                                target: self.primary.clone(),
                                clipboard_replaced: self.clipboard_replaced,
                                message,
                            }
                        },
                    },
                    _ => {
                        self.stage = SelectionStage::Done;
                        match result {
                            Ok(r) => {
                                if current {
                                    SelectionAction::EmitResultAndStop {
                                        result: TranslateResult { request_id: Some(self.request_id), ..r },
                                    }
                                } else {
                                    SelectionAction::Stop
                                }
                            },
                            Err(message) => {
                                if current {
                                    SelectionAction::EmitErrorAndStop { message }
                                } else {
                                    SelectionAction::Stop
                                }
                            },
                        }
                    },
                }
            },
            (SelectionStage::Pasting, SelectionEvent::Pasted { result }) => {
                self.stage = SelectionStage::Done;
                match result {
                    Ok(outcome) => SelectionAction::ToastAndStop {
                        text: paste_toast_text(self.translation.as_str(), outcome),
                    },
                    Err(message) => SelectionAction::ShowErrorAndStop {
                        text: self.text.clone(),
                        target: self.primary.clone(),
                        clipboard_replaced: false,
                        message,
                    },
                }
            },
            _ => {
                self.stage = SelectionStage::Done;
                SelectionAction::Stop
            },
        }
    }
}

/// Only the replace hotkey ever pastes, and what it pastes is the translation with the
/// white space that surrounded the selection.
pub proof fn law_only_replace_pastes(f: SelectionFlow, e: SelectionEvent, g: SelectionFlow, a: SelectionAction)
    requires
        selection_step(f, e, g, a),
        a is Paste,
    ensures
        f.action == Action::Replace,
        e matches SelectionEvent::Translated { result: Ok(r), .. } && (a matches SelectionAction::Paste {
            replacement,
            ..
        } && replacement@ == with_edges_spec(f.text@, r.translation.text@)),
{
}

/// A popup translation that is no longer the latest request is dropped silently.
pub proof fn law_stale_popup_result_is_dropped(
    f: SelectionFlow,
    e: SelectionEvent,
    g: SelectionFlow,
    a: SelectionAction,
)
    requires
        selection_step(f, e, g, a),
        f.action != Action::Replace,
        e matches SelectionEvent::Translated { current, .. } && !current,
    ensures
        a is Stop,
{
}

/// The window hotkey never shows the popup.
pub proof fn law_window_hotkey_opens_main_only(
    f: SelectionFlow,
    e: SelectionEvent,
    g: SelectionFlow,
    a: SelectionAction,
)
    requires
        selection_step(f, e, g, a),
        f.action == Action::Window,
        f.stage == SelectionStage::Capturing,
    ensures
        a is ShowMainAndStop || a is ShowMainWithTextAndStop || a is Stop,
        g.stage == SelectionStage::Done,
{
}

/// The popup translates away from the primary language: text detected in the primary
/// language goes to the secondary one, any other text (or an unknown language) goes to the
/// primary one; the text and the detected hint are handed on unchanged.
pub proof fn law_popup_target_swaps_from_primary(
    f: SelectionFlow,
    e: SelectionEvent,
    g: SelectionFlow,
    a: SelectionAction,
)
    requires
        selection_step(f, e, g, a),
        f.stage == SelectionStage::Detecting,
        e is Detected,
    ensures
        a matches SelectionAction::ShowAndTranslate { text, target, hint, .. } && text == f.text
            && (e matches SelectionEvent::Detected { hint: h } && hint == h && (opt_string_view(h)
            == Some(f.primary@) ==> target@ == f.secondary@) && (opt_string_view(h) != Some(
            f.primary@) ==> target@ == f.primary@)),
{
}

} // verus!
