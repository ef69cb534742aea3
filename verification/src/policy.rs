//! Request and replacement policy of the translator: which popup request is current, who
//! may replace the selection, which engine chain is used, when the target is swapped, the
//! toast text and how the original spacing is kept around a replacement.

use vstd::prelude::*;
use crate::capture::PasteOutcome;
use crate::engines::{strings_view, Translation};
use crate::settings::{is_known_engine, known_engine, Settings};
use crate::text::{
    all_ws, chars_of, collapse_whitespace, collapse_ws, is_blank, lead_ws, lead_ws_count,
    string_from_chars, trail_ws, trail_ws_count,
};

verus! {

/// Largest translation, in UTF-8 bytes, that may replace a selection or be saved.
pub const MAX_POPUP_REPLACEMENT_BYTES: usize = 1_000_000;

/// Longest toast text in characters before it is cut with an ellipsis.
pub const TOAST_CHARS: usize = 40;

pub const EMPTY_TRANSLATION: &'static str = "Перевод пуст; замена отменена";

pub const TRANSLATION_TOO_LARGE: &'static str = "Перевод слишком большой для безопасной замены";

pub const STALE_TRANSLATION: &'static str = "Этот перевод уже устарел; выделите текст заново";

pub const NO_ACTIVE_SELECTION: &'static str =
    "Для этого перевода нет активного выделения или замена уже выполнена";

pub const SOURCE_CHANGED: &'static str = "Исходный текст изменился; замена отменена";

pub const PASTE_SENT_CLIPBOARD_LOST: &'static str =
    "Вставка отправлена · буфер обмена не восстановлен";

pub const UNKNOWN_ENGINE: &'static str = "Неизвестный движок перевода: ";

pub const DISABLED_ENGINE: &'static str = "Движок перевода отключён в настройках: ";

pub const EMPTY_EDIT: &'static str = "Перевод пуст; сохранение отменено";

pub const EDIT_TOO_LARGE: &'static str = "Перевод слишком большой для безопасного сохранения";

/// Status of one hotkey registration, reported to the settings screen.
#[derive(Clone, Debug)]
pub struct HotkeyStatus {
    pub field: String,
    pub error: Option<String>,
}

/// A translation as the frontend receives it.
#[derive(Clone, Debug)]
pub struct TranslateResult {
    pub translation: Translation,
    pub history_id: Option<i64>,
    pub word_mode: bool,
    pub is_favorite: bool,
    pub request_id: Option<u64>,
}

/// An update found on the release channel.
#[derive(Clone, Debug)]
pub struct UpdateInfo {
    pub version: String,
    pub notes: Option<String>,
    pub date: Option<String>,
}

/// UTF-8 length of a text.
pub open spec fn byte_len(s: Seq<char>) -> nat {
    vstd::utf8::encode_utf8(s).len()
}

/// UTF-8 length of a text, as `str::len` gives it.
pub fn utf8_len(s: &str) -> (n: usize)
    ensures
        n == byte_len(s@),
{
    s.as_bytes().len()
}

/// A text has no bytes exactly when it has no characters.
pub proof fn lemma_byte_len_zero(s: Seq<char>)
    ensures
        (byte_len(s) == 0) == (s.len() == 0),
{
    if s.len() > 0 {
        assert(vstd::utf8::encode_scalar(s[0] as u32).len() >= 1);
    }
}

/// Hotkeys are registered only when the user enabled them and no new combination is
/// being recorded.
pub fn hotkeys_should_be_active(enabled: bool, suspended: bool) -> (r: bool)
    ensures
        r == (enabled && !suspended),
{
    enabled && !suspended
}

/// A hotkey without Ctrl, Alt, Shift or Win would steal a plain key in every program;
/// function keys are the exception.
pub fn hotkey_modifiers_ok(has_modifiers: bool, is_function_key: bool) -> (r: bool)
    ensures
        r == (has_modifiers || is_function_key),
{
    has_modifiers || is_function_key
}

/// A popup completion is shown only for the latest request.
pub fn request_matches(current: u64, candidate: u64) -> (r: bool)
    ensures
        r == (current == candidate),
{
    current == candidate
}

/// The next popup request number (the counter wraps like an atomic `fetch_add`).
pub fn next_request(current: u64) -> (r: u64)
    ensures
        r == (if current == u64::MAX {
            0
        } else {
            current + 1
        }),
{
    if current == u64::MAX {
        0
    } else {
        current + 1
    }
}

fn str_is(s: &str, lit: &str) -> (r: bool)
    ensures
        r == (s@ == lit@),
{
    let a = s.to_owned();
    let b = lit.to_owned();
    a == b
}

/// Replacement is accepted only from the visible popup window.
pub fn popup_command_origin_is_valid(label: &str, visible: bool) -> (r: bool)
    ensures
        r == (label@ == "popup"@ && visible),
{
    str_is(label, "popup") && visible
}

/// Screen capture may be started only from our own main or popup window.
pub fn screen_command_origin_is_valid(label: &str) -> (r: bool)
    ensures
        r == (label@ == "main"@ || label@ == "popup"@),
{
    str_is(label, "main") || str_is(label, "popup")
}

/// The only capture the current popup may replace.
pub struct PopupCaptureSession<C> {
    pub request_id: u64,
    pub source_text: String,
    pub context: C,
}

pub struct PopupCaptureStore<C> {
    pub current: Option<PopupCaptureSession<C>>,
}

impl<C> Default for PopupCaptureStore<C> {
    fn default() -> (s: Self)
        ensures
            s.current is None,
    {
        PopupCaptureStore { current: None }
    }
}

/// Why a replacement request is refused, in the order the checks run; `None` accepts it.
pub open spec fn take_refusal<C>(
    current: Option<PopupCaptureSession<C>>,
    current_request_id: u64,
    request_id: u64,
    source_text: Seq<char>,
    translated_text: Seq<char>,
) -> Option<Seq<char>> {
    if translated_text.len() == 0 {
        Some(EMPTY_TRANSLATION@)
    } else if byte_len(translated_text) > MAX_POPUP_REPLACEMENT_BYTES {
        Some(TRANSLATION_TOO_LARGE@)
    } else if request_id != current_request_id {
        Some(STALE_TRANSLATION@)
    } else if current is None {
        Some(NO_ACTIVE_SELECTION@)
    } else if current->0.request_id != request_id {
        Some(STALE_TRANSLATION@)
    } else if current->0.source_text@ != source_text {
        Some(SOURCE_CHANGED@)
    } else {
        None
    }
}

impl<C> PopupCaptureStore<C> {
    pub fn clear(&mut self)
        ensures
            final(self).current is None,
    {
        self.current = None;
    }

    pub fn set(&mut self, request_id: u64, source_text: String, context: C)
        ensures
            final(self).current == Some(PopupCaptureSession { request_id, source_text, context }),
    {
        self.current = Some(PopupCaptureSession { request_id, source_text, context });
    }

    /// Hands out the capture for one replacement: the translation must be non-empty and at
    /// most 1 MB, the request current, and the source text exactly the captured one. A
    /// refused request leaves the capture in place; an accepted one consumes it.
    pub fn take_for_replace(
        &mut self,
        current_request_id: u64,
        request_id: u64,
        source_text: &str,
        translated_text: String,
    ) -> (r: Result<(PopupCaptureSession<C>, String), String>)
        ensures
            match take_refusal(
                old(self).current,
                current_request_id,
                request_id,
                source_text@,
                translated_text@,
            ) {
                Some(m) => (r matches Err(e) && e@ == m) && final(self).current == old(self).current,
                None => (r matches Ok(p) && Some(p.0) == old(self).current && p.1 == translated_text)
                    && final(self).current is None,
            },
    {
        let bytes = utf8_len(translated_text.as_str());
        proof {
            lemma_byte_len_zero(translated_text@);
        }
        if bytes == 0 {
            return Err(EMPTY_TRANSLATION.to_owned());
        }
        if bytes > MAX_POPUP_REPLACEMENT_BYTES {
            return Err(TRANSLATION_TOO_LARGE.to_owned());
        }
        if request_id != current_request_id {
            return Err(STALE_TRANSLATION.to_owned());
        }
        let ok = match &self.current {
            None => {
                return Err(NO_ACTIVE_SELECTION.to_owned());
            },
            Some(session) => {
                if session.request_id != request_id {
                    return Err(STALE_TRANSLATION.to_owned());
                }
                str_is(session.source_text.as_str(), source_text)
            },
        };
        if !ok {
            return Err(SOURCE_CHANGED.to_owned());
        }
        let mut taken: Option<PopupCaptureSession<C>> = None;
        std::mem::swap(&mut taken, &mut self.current);
        match taken {
            Some(session) => Ok((session, translated_text)),
            None => Err(NO_ACTIVE_SELECTION.to_owned()),
        }
    }
}

/// A replacement is one-shot: once a capture was handed out, every later request is refused
/// until a new capture is stored.
pub proof fn law_replacement_is_one_shot<C>(
    current_request_id: u64,
    request_id: u64,
    source_text: Seq<char>,
    translated_text: Seq<char>,
)
    ensures
        take_refusal::<C>(
            None,
            current_request_id,
            request_id,
            source_text,
            translated_text,
        ) is Some,
{
}

/// The toast: runs of white space collapsed, at most 40 characters, an ellipsis when cut.
pub open spec fn toast_text_spec(s: Seq<char>) -> Seq<char> {
    let one = collapse_ws(s);
    if one.len() > TOAST_CHARS {
        one.take(TOAST_CHARS as int).push('…')
    } else {
        one
    }
}

pub fn toast_text(s: &str) -> (r: String)
    ensures
        r@ == toast_text_spec(s@),
{
    let v = chars_of(s);
    let one = collapse_whitespace(&v);
    let mut out = String::new();
    let mut i: usize = 0;
    let n = if one.len() > TOAST_CHARS {
        TOAST_CHARS
    } else {
        one.len()
    };
    while i < n
        invariant
            i <= n,
            n <= one.len(),
            out@ == one@.take(i as int),
        decreases n - i,
    {
        crate::text::push_char(&mut out, one[i]);
        assert(one@.take(i as int).push(one@[i as int]) == one@.take(i + 1));
        i += 1;
    }
    if one.len() > TOAST_CHARS {
        crate::text::push_char(&mut out, '…');
    } else {
        assert(one@.take(one.len() as int) == one@);
    }
    out
}

/// After a paste: the toast shows the translation, or says that the clipboard could not be
/// given back.
pub fn paste_toast_text(s: &str, outcome: PasteOutcome) -> (r: String)
    ensures
        r@ == (match outcome {
            PasteOutcome::ClipboardRestored => toast_text_spec(s@),
            PasteOutcome::ClipboardPreserved => PASTE_SENT_CLIPBOARD_LOST@,
        }),
{
    match outcome {
        PasteOutcome::ClipboardRestored => toast_text(s),
        PasteOutcome::ClipboardPreserved => PASTE_SENT_CLIPBOARD_LOST.to_owned(),
    }
}

/// The engine chain: the settings' chain, or exactly one manually chosen engine that is
/// known and enabled.
pub open spec fn translation_order_spec(engines: Seq<Seq<char>>, engine: Option<Seq<char>>) -> Result<
    Seq<Seq<char>>,
    Seq<char>,
> {
    match engine {
        None => Ok(engines),
        Some(e) => if !known_engine(e) {
            Err(UNKNOWN_ENGINE@ + e)
        } else if !engines.contains(e) {
            Err(DISABLED_ENGINE@ + e)
        } else {
            Ok(seq![e])
        },
    }
}

pub open spec fn order_view(r: Result<Vec<String>, String>) -> Result<Seq<Seq<char>>, Seq<char>> {
    match r {
        Ok(v) => Ok(strings_view(v@)),
        Err(e) => Err(e@),
    }
}

pub fn translation_order(settings: &Settings, engine: Option<&str>) -> (r: Result<
    Vec<String>,
    String,
>)
    ensures
        order_view(r) == translation_order_spec(
            strings_view(settings.engines@),
            crate::engines::opt_str_view(engine),
        ),
{
    let engine = match engine {
        None => {
            let copy = settings.engines.clone();
            assert(copy@ == settings.engines@);
            return Ok(copy);
        },
        Some(e) => e,
    };
    if !is_known_engine(engine) {
        let mut m = UNKNOWN_ENGINE.to_owned();
        m.append(engine);
        return Err(m);
    }
    let ghost es = strings_view(settings.engines@);
    let mut enabled = false;
    let mut i: usize = 0;
    while i < settings.engines.len()
        invariant
            i <= settings.engines.len(),
            es == strings_view(settings.engines@),
            enabled == exists|k: int| 0 <= k < i && es[k] == engine@,
        decreases settings.engines.len() - i,
    {
        assert(es[i as int] == settings.engines@[i as int]@);
        if str_is(settings.engines[i].as_str(), engine) {
            enabled = true;
        }
        i += 1;
    }
    if !enabled {
        proof {
            if es.contains(engine@) {
                let k = choose|k: int| 0 <= k < es.len() && es[k] == engine@;
                assert(es[k] == engine@);
            }
        }
        let mut m = DISABLED_ENGINE.to_owned();
        m.append(engine);
        return Err(m);
    }
    let mut v: Vec<String> = Vec::new();
    v.push(engine.to_owned());
    assert(strings_view(v@) =~= seq![engine@]);
    Ok(v)
}

/// The engine detected the target language itself: translate to the other language,
/// unless the user chose both the engine and the target by hand.
pub fn should_auto_swap(detected: &str, target: &str, manual_engine: bool, explicit_target: bool) -> (r:
    bool)
    ensures
        r == (detected@ == target@ && !(manual_engine && explicit_target)),
{
    str_is(detected, target) && !(manual_engine && explicit_target)
}

/// The language a swapped translation goes to.
pub fn swapped_target(target: &str, primary: &str, secondary: &str) -> (r: String)
    ensures
        r@ == (if target@ == primary@ {
            secondary@
        } else {
            primary@
        }),
{
    if str_is(target, primary) {
        secondary.to_owned()
    } else {
        primary.to_owned()
    }
}

/// An edited translation is saved only if it is not blank and at most 1 MB.
pub fn validate_translation_edit(text: &str) -> (r: Result<(), String>)
    ensures
        crate::settings::unit_result_view(r) == (if all_ws(text@) {
            Err::<(), Seq<char>>(EMPTY_EDIT@)
        } else if byte_len(text@) > MAX_POPUP_REPLACEMENT_BYTES {
            Err(EDIT_TOO_LARGE@)
        } else {
            Ok(())
        }),
{
    if is_blank(text) {
        return Err(EMPTY_EDIT.to_owned());
    }
    if utf8_len(text) > MAX_POPUP_REPLACEMENT_BYTES {
        return Err(EDIT_TOO_LARGE.to_owned());
    }
    Ok(())
}

/// The replacement keeps the white space around the original selection: engines drop it.
pub open spec fn with_edges_spec(original: Seq<char>, translation: Seq<char>) -> Seq<char> {
    original.take(lead_ws(original) as int) + translation + original.skip(
        original.len() - trail_ws(original),
    )
}

pub fn with_original_edges(original: &str, translation: &str) -> (r: String)
    ensures
        r@ == with_edges_spec(original@, translation@),
{
    let v = chars_of(original);
    proof {
        crate::text::lemma_lead_ws_bound(v@);
        crate::text::lemma_trail_ws_bound(v@);
    }
    let lead = lead_ws_count(&v);
    let trail = trail_ws_count(&v);
    let mut out: Vec<char> = Vec::new();
    let mut i: usize = 0;
    while i < lead
        invariant
            i <= lead <= v.len(),
            out@ == v@.take(i as int),
        decreases lead - i,
    {
        out.push(v[i]);
        assert(v@.take(i as int).push(v@[i as int]) == v@.take(i + 1));
        i += 1;
    }
    let mut s = string_from_chars(&out);
    s.append(translation);
    let mut tail: Vec<char> = Vec::new();
    let mut j: usize = v.len() - trail;
    while j < v.len()
        invariant
            v.len() - trail <= j <= v.len(),
            trail <= v.len(),
            tail@ == v@.subrange(v.len() - trail, j as int),
        decreases v.len() - j,
    {
        tail.push(v[j]);
        assert(v@.subrange(v.len() - trail, j as int).push(v@[j as int]) == v@.subrange(
            v.len() - trail,
            j + 1,
        ));
        j += 1;
    }
    let t = string_from_chars(&tail);
    s.append(t.as_str());
    assert(tail@ == v@.skip(v.len() - trail));
    s
}

/// The replacement confirmation. `overlay`: the popup is already on screen and the toast is
/// drawn over its card without moving the window.
#[derive(Clone, Debug)]
pub struct Toast {
    pub text: String,
    pub overlay: bool,
}

/// The toast for a visible or a hidden popup.
pub fn toast_for(text: &str, popup_visible: bool) -> (t: Toast)
    ensures
        t.text@ == text@,
        t.overlay == popup_visible,
{
    Toast { text: text.to_owned(), overlay: popup_visible }
}

pub const NO_CONNECTION: &'static str = "Нет соединения";

pub const UPDATE_CHECK_FAILED: &'static str = "Не удалось проверить обновления: ";

/// Lowercase mapping of a text, as `str::to_lowercase` performs it (Unicode rules).
pub uninterp spec fn lowercase(s: Seq<char>) -> Seq<char>;

/// `str::to_lowercase`; the contract claims only that the result is the lowercase mapping
/// of `s`, named `lowercase`.
#[verifier::external_body]
fn to_lower(s: &str) -> (r: String)
    ensures
        r@ == lowercase(s@),
{
    s.to_lowercase()
}

/// Words by which an updater error is recognized as a network problem.
pub open spec fn network_word(i: int) -> Seq<char> {
    if i == 0 {
        "error sending request"@
    } else if i == 1 {
        "dns"@
    } else if i == 2 {
        "connect"@
    } else if i == 3 {
        "timed out"@
    } else {
        "timeout"@
    }
}

pub open spec fn contains_text(s: Seq<char>, pat: Seq<char>) -> bool {
    exists|i: int| crate::engines::occurs_at(s, pat, i)
}

fn contains_str(s: &str, pat: &str) -> (r: bool)
    ensures
        r == contains_text(s@, pat@),
{
    let sv = chars_of(s);
    let pv = chars_of(pat);
    match crate::engines::find_from(&sv, &pv, 0) {
        Some(i) => {
            assert(crate::engines::occurs_at(s@, pat@, i as int));
            true
        },
        None => {
            assert forall|j: int| !crate::engines::occurs_at(s@, pat@, j) by {
                if j >= 0 {
                    assert(!crate::engines::occurs_at(sv@, pv@, j));
                }
            }
            false
        },
    }
}

/// What the user reads when the update check fails: a network problem is told as such,
/// anything else with the updater's own message.
pub fn update_error_message(error: &str) -> (m: String)
    ensures
        m@ == update_error_spec(error@, lowercase(error@)),
{
    let low = to_lower(error);
    update_error_for(error, low.as_str())
}

/// The message for an updater error whose lowercase form is `lowered`.
pub open spec fn update_error_spec(error: Seq<char>, lowered: Seq<char>) -> Seq<char> {
    if exists|i: int| 0 <= i < 5 && contains_text(lowered, #[trigger] network_word(i)) {
        NO_CONNECTION@
    } else {
        UPDATE_CHECK_FAILED@ + error
    }
}

/// The message for `error`, told by its lowercase form `lowered`: a network problem when
/// it names one of the network failures, otherwise the updater's own message.
pub fn update_error_for(error: &str, lowered: &str) -> (m: String)
    ensures
        m@ == update_error_spec(error@, lowered@),
{
    let words: [&str; 5] = ["error sending request", "dns", "connect", "timed out", "timeout"];
    let mut i: usize = 0;
    while i < 5
        invariant
            i <= 5,
            words@.len() == 5,
            forall|j: int| 0 <= j < 5 ==> (#[trigger] words@[j])@ == network_word(j),
            forall|j: int| 0 <= j < i ==> !contains_text(lowered@, #[trigger] network_word(j)),
        decreases 5 - i,
    {
        if contains_str(lowered, words[i]) {
            return NO_CONNECTION.to_owned();
        }
        i += 1;
    }
    let mut m = UPDATE_CHECK_FAILED.to_owned();
    m.append(error);
    m
}

/// Download progress is sent at most every 100 ms, and always for the last piece.
pub fn should_send_progress(elapsed_ms: u64, downloaded: u64, total: Option<u64>) -> (r: bool)
    ensures
        r == (elapsed_ms >= 100 || total == Some(downloaded)),
{
    elapsed_ms >= 100 || match total {
        Some(t) => t == downloaded,
        None => false,
    }
}

/// A toast is never longer than 40 characters and the ellipsis.
pub proof fn law_toast_is_short(s: Seq<char>)
    ensures
        toast_text_spec(s).len() <= TOAST_CHARS + 1,
{
}

} // verus!
