//! Decisions of the selection capture and the safe paste: which input target counts as the
//! same, when the user's clipboard may be written back, and how a clipboard format is copied.

use vstd::prelude::*;

verus! {

/// The window, focused control and process that received the hotkey, plus the input epoch.
#[derive(Clone, Copy, Debug, PartialEq, Eq, Structural)]
pub struct InputContext {
    foreground: isize,
    focus: isize,
    process_id: u32,
    last_input: u32,
}

impl InputContext {
    pub fn new(foreground: isize, focus: isize, process_id: u32, last_input: u32) -> (c: Self)
        ensures
            c.foreground_spec() == foreground,
            c.focus_spec() == focus,
            c.process_id_spec() == process_id,
            c.last_input_spec() == last_input,
    {
        InputContext { foreground, focus, process_id, last_input }
    }

    pub fn foreground(&self) -> (r: isize)
        ensures
            r == self.foreground_spec(),
    {
        self.foreground
    }

    pub fn focus(&self) -> (r: isize)
        ensures
            r == self.focus_spec(),
    {
        self.focus
    }

    pub fn process_id(&self) -> (r: u32)
        ensures
            r == self.process_id_spec(),
    {
        self.process_id
    }

    pub fn last_input(&self) -> (r: u32)
        ensures
            r == self.last_input_spec(),
    {
        self.last_input
    }

    pub closed spec fn foreground_spec(self) -> isize {
        self.foreground
    }

    pub closed spec fn focus_spec(self) -> isize {
        self.focus
    }

    pub closed spec fn process_id_spec(self) -> u32 {
        self.process_id
    }

    pub closed spec fn last_input_spec(self) -> u32 {
        self.last_input
    }
}

/// Result of a selection capture.
#[derive(Debug)]
pub struct Captured {
    pub text: Option<String>,
    pub context: InputContext,
    /// Kept in the protocol for compatibility; a safe capture either restores the whole
    /// clipboard or fails.
    pub clipboard_replaced: bool,
}

/// Whether the user's clipboard came back after a paste.
#[derive(Clone, Copy, Debug, PartialEq, Eq, Structural)]
pub enum PasteOutcome {
    ClipboardRestored,
    ClipboardPreserved,
}

/// How a clipboard format is copied for later restoration.
#[derive(Clone, Copy, Debug, PartialEq, Eq, Structural)]
pub enum FormatKind {
    Global,
    Bitmap,
    EnhMetaFile,
    Unsupported,
}

pub const CF_BITMAP_ID: u32 = 2;
pub const CF_METAFILEPICT_ID: u32 = 3;
pub const CF_PALETTE_ID: u32 = 9;
pub const CF_UNICODETEXT_ID: u32 = 13;
pub const CF_ENHMETAFILE_ID: u32 = 14;
pub const CF_DSPBITMAP_ID: u32 = 0x82;
pub const CF_DSPMETAFILEPICT_ID: u32 = 0x83;
pub const CF_DSPENHMETAFILE_ID: u32 = 0x8e;
pub const CF_PRIVATEFIRST: u32 = 0x0200;
pub const CF_PRIVATELAST: u32 = 0x02ff;
pub const CF_GDIOBJFIRST: u32 = 0x0300;
pub const CF_GDIOBJLAST: u32 = 0x03ff;

pub open spec fn format_kind_spec(format: u32) -> FormatKind {
    if format == CF_BITMAP_ID || format == CF_DSPBITMAP_ID {
        FormatKind::Bitmap
    } else if format == CF_ENHMETAFILE_ID || format == CF_DSPENHMETAFILE_ID {
        FormatKind::EnhMetaFile
    } else if format == CF_METAFILEPICT_ID || format == CF_DSPMETAFILEPICT_ID || format
        == CF_PALETTE_ID {
        FormatKind::Unsupported
    } else if (CF_PRIVATEFIRST <= format <= CF_PRIVATELAST) || (CF_GDIOBJFIRST <= format
        <= CF_GDIOBJLAST) {
        FormatKind::Unsupported
    } else {
        FormatKind::Global
    }
}

/// Text, DIB, HDROP and registered formats live in a movable HGLOBAL; bitmaps and
/// enhanced metafiles are copied as GDI objects; the rest cannot be restored.
pub fn format_kind(format: u32) -> (k: FormatKind)
    ensures
        k == format_kind_spec(format),
{
    if format == CF_BITMAP_ID || format == CF_DSPBITMAP_ID {
        FormatKind::Bitmap
    } else if format == CF_ENHMETAFILE_ID || format == CF_DSPENHMETAFILE_ID {
        FormatKind::EnhMetaFile
    } else if format == CF_METAFILEPICT_ID || format == CF_DSPMETAFILEPICT_ID || format
        == CF_PALETTE_ID {
        FormatKind::Unsupported
    } else if (CF_PRIVATEFIRST <= format && format <= CF_PRIVATELAST) || (CF_GDIOBJFIRST
        <= format && format <= CF_GDIOBJLAST) {
        FormatKind::Unsupported
    } else {
        FormatKind::Global
    }
}

/// Same window, same focused control, same process; the input epoch is not compared.
pub open spec fn same_target_spec(a: InputContext, b: InputContext) -> bool {
    a.foreground_spec() == b.foreground_spec() && a.focus_spec() == b.focus_spec()
        && a.process_id_spec() == b.process_id_spec()
}

pub fn same_target(a: &InputContext, b: &InputContext) -> (r: bool)
    ensures
        r == same_target_spec(*a, *b),
{
    a.foreground == b.foreground && a.focus == b.focus && a.process_id == b.process_id
}

/// Before focus is handed back from the popup, the original window and its focused control
/// must still belong to the original process.
pub fn popup_restore_identity_is_valid(
    original: &InputContext,
    foreground_pid: u32,
    focus_exists: bool,
    focus_pid: u32,
) -> (r: bool)
    ensures
        r == (foreground_pid == original.process_id_spec() && focus_exists && focus_pid
            == original.process_id_spec()),
{
    foreground_pid == original.process_id && focus_exists && focus_pid == original.process_id
}

#[derive(Clone, Copy, Debug, PartialEq, Eq, Structural)]
pub enum PopupRestoreAction {
    AlreadyRestored,
    RestoreOriginal,
    Abort,
}

/// After the popup hides: nothing to do if the original window is in front, bring it back
/// if the popup (or nobody) is in front, and never take focus from an unrelated window.
pub fn popup_restore_action(
    foreground: isize,
    popup_foreground: isize,
    original_foreground: isize,
) -> (a: PopupRestoreAction)
    ensures
        a == (if foreground == original_foreground {
            PopupRestoreAction::AlreadyRestored
        } else if foreground == popup_foreground || foreground == 0 {
            PopupRestoreAction::RestoreOriginal
        } else {
            PopupRestoreAction::Abort
        }),
{
    if foreground == original_foreground {
        PopupRestoreAction::AlreadyRestored
    } else if foreground == popup_foreground || foreground == 0 {
        PopupRestoreAction::RestoreOriginal
    } else {
        PopupRestoreAction::Abort
    }
}

/// A replacement goes ahead only for the same target and the exact same selected text;
/// mouse movement (a newer input epoch) does not cancel it.
pub fn replacement_unchanged(
    original: &InputContext,
    current: &InputContext,
    original_text: &str,
    current_text: &str,
) -> (r: bool)
    ensures
        r == (same_target_spec(*original, *current) && original_text@ == current_text@),
{
    same_target(original, current) && str_eq(original_text, current_text)
}

/// `==` on string slices.
pub fn str_eq(a: &str, b: &str) -> (r: bool)
    ensures
        r == (a@ == b@),
{
    let sa = a.to_owned();
    let sb = b.to_owned();
    sa == sb
}

#[derive(Clone, Copy, Debug, PartialEq, Eq, Structural)]
pub enum ClipboardRestoreDecision {
    Restore,
    PreserveExternal,
}

/// The saved clipboard is written back only over an unchanged clipboard, or over our own
/// pasted payload (same owner and exact text) after the system synthesized formats.
pub fn clipboard_restore_decision(
    expected_sequence: u32,
    current_sequence: u32,
    owner_matches: bool,
    text_matches: bool,
) -> (d: ClipboardRestoreDecision)
    ensures
        (d == ClipboardRestoreDecision::Restore) == (current_sequence == expected_sequence || (
        owner_matches && text_matches)),
{
    if current_sequence == expected_sequence || (owner_matches && text_matches) {
        ClipboardRestoreDecision::Restore
    } else {
        ClipboardRestoreDecision::PreserveExternal
    }
}

/// Who owns the clipboard, relative to our marker window and the target's process.
pub fn owner_relation(owner_is_marker_window: bool, owner_pid: u32, target_pid: u32) -> (r:
    crate::copy_poll::CopyOwnerRelation)
    ensures
        r == (if owner_is_marker_window {
            crate::copy_poll::CopyOwnerRelation::Marker
        } else if owner_pid == target_pid {
            crate::copy_poll::CopyOwnerRelation::Target
        } else {
            crate::copy_poll::CopyOwnerRelation::Unrelated
        }),
{
    if owner_is_marker_window {
        crate::copy_poll::CopyOwnerRelation::Marker
    } else if owner_pid == target_pid {
        crate::copy_poll::CopyOwnerRelation::Target
    } else {
        crate::copy_poll::CopyOwnerRelation::Unrelated
    }
}

} // verus!
