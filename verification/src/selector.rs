//! The region selector as a machine: mouse and window events come in, the selection and
//! the window-system effects come out. Drawing stays with the window system.

use vstd::prelude::*;
use crate::screen_capture::{
    crop_bgra_top_down, crop_error, crop_ok, intersection, max, min, rect, OUT_OF_MEMORY,
    selection_spec, validated_selection, CapturedRegion, PointI, RectI,
};

verus! {

/// The exit animation of the selector, in milliseconds.
pub const EXIT_MS: u64 = 90;

pub const NO_MONITORS: &'static str = "Windows не сообщила ни об одном мониторе";

/// How the selector ended.
#[derive(Clone, Copy, Debug, PartialEq, Eq, Structural)]
pub enum Outcome {
    Accepted { rect: RectI },
    Cancelled,
}

/// What the frame's transparency depends on, taken at one moment.
#[derive(Clone, Copy, Debug, PartialEq, Eq, Structural)]
pub struct FrameInputs {
    pub now: u64,
    pub first_move_at: Option<u64>,
    pub drag_started_at: Option<u64>,
    pub dragging: bool,
    pub last_move_at: u64,
}

/// Mouse, keyboard, window and timer events of the selector windows.
#[derive(Clone, Copy, Debug, PartialEq, Eq, Structural)]
pub enum SelectorEvent {
    /// The left button went down; `point` is `None` when the cursor position is unknown.
    LeftDown { point: Option<PointI>, now: u64 },
    MouseMove { point: Option<PointI>, now: u64 },
    LeftUp { point: Option<PointI>, now: u64 },
    Escape,
    RightDown { now: u64 },
    /// The window is closed, or the displays or their DPI changed.
    CloseRequested,
    /// The mouse capture was taken away.
    CaptureLost,
    /// The focus or activation left a selector window; `to_own_window` says whether it went
    /// to another selector window.
    FocusLeft { to_own_window: bool },
    Tick { now: u64 },
}

/// What the window system has to do after an event, in this order.
#[derive(Clone, Copy, Debug, PartialEq, Eq, Structural)]
pub struct SelectorEffects {
    /// Keep the frame as these inputs make it: it fades out unchanged.
    pub freeze: Option<FrameInputs>,
    pub set_capture: bool,
    pub release_capture: bool,
    pub redraw: bool,
    pub post_quit: bool,
}

pub struct SelectorMachine {
    pub desktop: RectI,
    pub monitors: Vec<RectI>,
    pub anchor: Option<PointI>,
    pub cursor: Option<PointI>,
    pub dragging: bool,
    pub outcome: Option<Outcome>,
    pub reduce_motion: bool,
    pub first_move_at: Option<u64>,
    pub drag_started_at: Option<u64>,
    pub last_move_at: u64,
    pub closing_at: Option<u64>,
    pub quit_posted: bool,
}

pub open spec fn no_effects() -> SelectorEffects {
    SelectorEffects {
        freeze: None,
        set_capture: false,
        release_capture: false,
        redraw: false,
        post_quit: false,
    }
}

/// The rectangle spanned by a drag in any direction.
pub open spec fn drag_rect(anchor: PointI, current: PointI) -> RectI {
    rect(
        min(anchor.x as int, current.x as int),
        min(anchor.y as int, current.y as int),
        max(anchor.x as int, current.x as int),
        max(anchor.y as int, current.y as int),
    )
}

/// The exit animation is over.
pub open spec fn exit_finished(closing_at: Option<u64>, now: u64, reduce_motion: bool) -> bool {
    closing_at matches Some(c) && (reduce_motion || now >= c + EXIT_MS)
}

/// Everything of the machine but the parts an event may change.
pub open spec fn same_setup(m: SelectorMachine, n: SelectorMachine) -> bool {
    &&& n.desktop == m.desktop
    &&& n.monitors@ == m.monitors@
    &&& n.reduce_motion == m.reduce_motion
}

/// Closing at once (keyboard, focus loss, display change): the outcome is fixed first, an
/// active drag is released and the message loop is told to end, each only once.
pub open spec fn finish_spec(m: SelectorMachine, outcome: Outcome, n: SelectorMachine, fx: SelectorEffects) -> bool {
    if m.outcome is Some {
        n == m && fx == no_effects()
    } else {
        &&& n.outcome == Some(outcome)
        &&& n.dragging == false
        &&& n.quit_posted == true
        &&& fx == SelectorEffects {
            freeze: None,
            set_capture: false,
            release_capture: m.dragging,
            redraw: false,
            post_quit: !m.quit_posted,
        }
        &&& n.anchor == m.anchor
        &&& n.cursor == m.cursor
        &&& n.first_move_at == m.first_move_at
        &&& n.drag_started_at == m.drag_started_at
        &&& n.last_move_at == m.last_move_at
        &&& n.closing_at == m.closing_at
    }
}

/// Closing with the exit animation (accepting, right click): the frame is frozen as it is
/// and fades out; without animations it is `finish_spec`.
pub open spec fn begin_exit_spec(
    m: SelectorMachine,
    outcome: Outcome,
    now: u64,
    n: SelectorMachine,
    fx: SelectorEffects,
) -> bool {
    if m.outcome is Some {
        n == m && fx == no_effects()
    } else if m.reduce_motion {
        finish_spec(m, outcome, n, fx)
    } else {
        &&& n.outcome == Some(outcome)
        &&& n.dragging == false
        &&& n.closing_at == Some(now)
        &&& fx == SelectorEffects {
            freeze: Some(
                FrameInputs {
                    now,
                    first_move_at: m.first_move_at,
                    drag_started_at: m.drag_started_at,
                    dragging: m.dragging,
                    last_move_at: m.last_move_at,
                },
            ),
            set_capture: false,
            release_capture: m.dragging,
            redraw: true,
            post_quit: false,
        }
        &&& n.anchor == m.anchor
        &&& n.cursor == m.cursor
        &&& n.first_move_at == m.first_move_at
        &&& n.drag_started_at == m.drag_started_at
        &&& n.last_move_at == m.last_move_at
        &&& n.quit_posted == m.quit_posted
    }
}

/// One event: the machine after it and the effects, as the selector window handles it.
pub open spec fn selector_step(m: SelectorMachine, e: SelectorEvent, n: SelectorMachine, fx: SelectorEffects) -> bool {
    let live = m.outcome is None;
    &&& same_setup(m, n)
    &&& match e {
        SelectorEvent::LeftDown { point, now } => if live && point is Some {
            &&& n.anchor == point
            &&& n.cursor == point
            &&& n.dragging
            &&& n.drag_started_at == Some(now)
            &&& n.last_move_at == now
            &&& n.first_move_at == m.first_move_at
            &&& n.outcome == m.outcome
            &&& n.closing_at == m.closing_at
            &&& n.quit_posted == m.quit_posted
            &&& fx == SelectorEffects {
                freeze: None,
                set_capture: true,
                release_capture: false,
                redraw: true,
                post_quit: false,
            }
        } else {
            n == m && fx == no_effects()
        },
        SelectorEvent::MouseMove { point, now } => if live && point is Some && m.cursor != point {
            &&& n.cursor == point
            &&& n.last_move_at == now
            &&& n.first_move_at == (if m.first_move_at is Some {
                m.first_move_at
            } else {
                Some(now)
            })
            &&& n.anchor == m.anchor
            &&& n.dragging == m.dragging
            &&& n.drag_started_at == m.drag_started_at
            &&& n.outcome == m.outcome
            &&& n.closing_at == m.closing_at
            &&& n.quit_posted == m.quit_posted
            &&& fx == SelectorEffects {
                freeze: None,
                set_capture: false,
                release_capture: false,
                redraw: true,
                post_quit: false,
            }
        } else {
            n == m && fx == no_effects()
        },
        SelectorEvent::LeftUp { point, now } => if !(live && m.dragging) {
            n == m && fx == no_effects()
        } else {
            match (m.anchor, point) {
                (Some(a), Some(c)) => {
                    let moved = SelectorMachine { cursor: Some(c), ..m };
                    match selection_spec(drag_rect(a, c), m.desktop, m.monitors@) {
                        Ok(Some(r)) => begin_exit_spec(moved, Outcome::Accepted { rect: r }, now, n, fx),
                        Ok(None) => {
                            &&& n.dragging == false
                            &&& n.anchor is None
                            &&& n.cursor == Some(c)
                            &&& n.outcome == m.outcome
                            &&& n.first_move_at == m.first_move_at
                            &&& n.drag_started_at == m.drag_started_at
                            &&& n.last_move_at == m.last_move_at
                            &&& n.closing_at == m.closing_at
                            &&& n.quit_posted == m.quit_posted
                            &&& fx == SelectorEffects {
                                freeze: None,
                                set_capture: false,
                                release_capture: true,
                                redraw: true,
                                post_quit: false,
                            }
                        },
                        Err(_) => begin_exit_spec(moved, Outcome::Cancelled, now, n, fx),
                    }
                },
                _ => begin_exit_spec(m, Outcome::Cancelled, now, n, fx),
            }
        },
        SelectorEvent::Escape => if live {
            finish_spec(m, Outcome::Cancelled, n, fx)
        } else {
            n == m && fx == no_effects()
        },
        SelectorEvent::RightDown { now } => if live {
            begin_exit_spec(m, Outcome::Cancelled, now, n, fx)
        } else {
            n == m && fx == no_effects()
        },
        SelectorEvent::CloseRequested => finish_spec(m, Outcome::Cancelled, n, fx),
        SelectorEvent::CaptureLost => if m.dragging {
            finish_spec(SelectorMachine { dragging: false, ..m }, Outcome::Cancelled, n, fx)
        } else {
            n == m && fx == no_effects()
        },
        SelectorEvent::FocusLeft { to_own_window } => if !to_own_window {
            finish_spec(m, Outcome::Cancelled, n, fx)
        } else {
            n == m && fx == no_effects()
        },
        SelectorEvent::Tick { now } => if exit_finished(m.closing_at, now, m.reduce_motion)
            && !m.quit_posted {
            n == SelectorMachine { quit_posted: true, ..m } && fx == SelectorEffects {
                freeze: None,
                set_capture: false,
                release_capture: false,
                redraw: false,
                post_quit: true,
            }
        } else {
            n == m && fx == no_effects()
        },
    }
}

fn quiet() -> (fx: SelectorEffects)
    ensures
        fx == no_effects(),
{
    SelectorEffects {
        freeze: None,
        set_capture: false,
        release_capture: false,
        redraw: false,
        post_quit: false,
    }
}

impl SelectorMachine {
    /// A selector over the virtual desktop and its monitors; Windows must report at least
    /// one monitor.
    pub fn new(desktop: RectI, monitors: Vec<RectI>, cursor: Option<PointI>, reduce_motion: bool) -> (r:
        Result<Self, String>)
        ensures
            monitors@.len() == 0 ==> (r matches Err(e) && e@ == NO_MONITORS@),
            monitors@.len() > 0 ==> (r matches Ok(m) && m.desktop == desktop && m.monitors@
                == monitors@ && m.cursor == cursor && m.reduce_motion == reduce_motion
                && m.anchor is None && !m.dragging && m.outcome is None && m.first_move_at is None
                && m.drag_started_at is None && m.last_move_at == 0 && m.closing_at is None
                && !m.quit_posted),
    {
        if monitors.len() == 0 {
            return Err(NO_MONITORS.to_owned());
        }
        Ok(SelectorMachine {
            desktop,
            monitors,
            anchor: None,
            cursor,
            dragging: false,
            outcome: None,
            reduce_motion,
            first_move_at: None,
            drag_started_at: None,
            last_move_at: 0,
            closing_at: None,
            quit_posted: false,
        })
    }

    fn finish(&mut self, outcome: Outcome) -> (fx: SelectorEffects)
        ensures
            finish_spec(*old(self), outcome, *final(self), fx),
            same_setup(*old(self), *final(self)),
    {
        if self.outcome.is_some() {
            return quiet();
        }
        self.outcome = Some(outcome);
        let release = self.dragging;
        self.dragging = false;
        let post = !self.quit_posted;
        self.quit_posted = true;
        SelectorEffects {
            freeze: None,
            set_capture: false,
            release_capture: release,
            redraw: false,
            post_quit: post,
        }
    }

    fn begin_exit(&mut self, outcome: Outcome, now: u64) -> (fx: SelectorEffects)
        ensures
            begin_exit_spec(*old(self), outcome, now, *final(self), fx),
            same_setup(*old(self), *final(self)),
    {
        if self.outcome.is_some() {
            return quiet();
        }
        if self.reduce_motion {
            return self.finish(outcome);
        }
        let frame = FrameInputs {
            now,
            first_move_at: self.first_move_at,
            drag_started_at: self.drag_started_at,
            dragging: self.dragging,
            last_move_at: self.last_move_at,
        };
        self.outcome = Some(outcome);
        let release = self.dragging;
        self.dragging = false;
        self.closing_at = Some(now);
        SelectorEffects {
            freeze: Some(frame),
            set_capture: false,
            release_capture: release,
            redraw: true,
            post_quit: false,
        }
    }

    /// Handles one event of the selector windows.
    pub fn step(&mut self, event: SelectorEvent) -> (fx: SelectorEffects)
        ensures
            selector_step(*old(self), event, *final(self), fx),
    {
        let live = self.outcome.is_none();
        match event {
            SelectorEvent::LeftDown { point, now } => {
                if live {
                    if let Some(p) = point {
                        self.anchor = Some(p);
                        self.cursor = Some(p);
                        self.dragging = true;
                        self.drag_started_at = Some(now);
                        self.last_move_at = now;
                        return SelectorEffects {
                            freeze: None,
                            set_capture: true,
                            release_capture: false,
                            redraw: true,
                            post_quit: false,
                        };
                    }
                }
                quiet()
            },
            SelectorEvent::MouseMove { point, now } => {
                if live {
                    if let Some(p) = point {
                        if self.cursor != Some(p) {
                            self.cursor = Some(p);
                            self.last_move_at = now;
                            if self.first_move_at.is_none() {
                                self.first_move_at = Some(now);
                            }
                            return SelectorEffects {
                                freeze: None,
                                set_capture: false,
                                release_capture: false,
                                redraw: true,
                                post_quit: false,
                            };
                        }
                    }
                }
                quiet()
            },
            SelectorEvent::LeftUp { point, now } => {
                if !(live && self.dragging) {
                    return quiet();
                }
                match (self.anchor, point) {
                    (Some(a), Some(c)) => {
                        self.cursor = Some(c);
                        let drag = RectI::from_drag(a, c);
                        match validated_selection(drag, self.desktop, self.monitors.as_slice()) {
                            Ok(Some(r)) => self.begin_exit(Outcome::Accepted { rect: r }, now),
                            Ok(None) => {
                                self.dragging = false;
                                self.anchor = None;
                                SelectorEffects {
                                    freeze: None,
                                    set_capture: false,
                                    release_capture: true,
                                    redraw: true,
                                    post_quit: false,
                                }
                            },
                            Err(_) => self.begin_exit(Outcome::Cancelled, now),
                        }
                    },
                    _ => self.begin_exit(Outcome::Cancelled, now),
                }
            },
            SelectorEvent::Escape => {
                if live {
                    self.finish(Outcome::Cancelled)
                } else {
                    quiet()
                }
            },
            SelectorEvent::RightDown { now } => {
                if live {
                    self.begin_exit(Outcome::Cancelled, now)
                } else {
                    quiet()
                }
            },
            SelectorEvent::CloseRequested => self.finish(Outcome::Cancelled),
            SelectorEvent::CaptureLost => {
                if self.dragging {
                    self.dragging = false;
                    self.finish(Outcome::Cancelled)
                } else {
                    quiet()
                }
            },
            SelectorEvent::FocusLeft { to_own_window } => {
                if !to_own_window {
                    self.finish(Outcome::Cancelled)
                } else {
                    quiet()
                }
            },
            SelectorEvent::Tick { now } => {
                let finished = match self.closing_at {
                    Some(c) => self.reduce_motion || (now >= c && now - c >= EXIT_MS),
                    None => false,
                };
                if finished && !self.quit_posted {
                    self.quit_posted = true;
                    SelectorEffects {
                        freeze: None,
                        set_capture: false,
                        release_capture: false,
                        redraw: false,
                        post_quit: true,
                    }
                } else {
                    quiet()
                }
            },
        }
    }

    /// The selected rectangle, if the selector accepted one.
    pub fn selection(&self) -> (r: Option<RectI>)
        ensures
            r == (match self.outcome {
                Some(Outcome::Accepted { rect }) => Some(rect),
                _ => None,
            }),
    {
        match self.outcome {
            Some(Outcome::Accepted { rect }) => Some(rect),
            _ => None,
        }
    }
}

/// The outcome is decided once: after it, no event changes it.
pub proof fn law_outcome_is_final(m: SelectorMachine, e: SelectorEvent, n: SelectorMachine, fx: SelectorEffects)
    requires
        selector_step(m, e, n, fx),
        m.outcome is Some,
    ensures
        n.outcome == m.outcome,
        !fx.set_capture,
{
}

/// The message loop is told to end at most once.
pub proof fn law_quit_is_posted_once(m: SelectorMachine, e: SelectorEvent, n: SelectorMachine, fx: SelectorEffects)
    requires
        selector_step(m, e, n, fx),
    ensures
        fx.post_quit ==> !m.quit_posted && n.quit_posted,
        m.quit_posted ==> n.quit_posted,
{
}

/// An accepted rectangle is the drag from the anchor to where the button went up, as the
/// selection rules clip and check it; and nothing else is ever accepted.
pub proof fn law_accepted_rect_is_a_valid_selection(
    m: SelectorMachine,
    e: SelectorEvent,
    n: SelectorMachine,
    fx: SelectorEffects,
    r: RectI,
)
    requires
        selector_step(m, e, n, fx),
        m.outcome is None,
        n.outcome == Some(Outcome::Accepted { rect: r }),
    ensures
        e matches SelectorEvent::LeftUp { point: Some(c), .. } && m.anchor matches Some(a)
            && selection_spec(drag_rect(a, c), m.desktop, m.monitors@) == Ok::<
            Option<RectI>,
            Seq<char>,
        >(Some(r)),
{
}

/// Whatever ends the selector, a drag in progress is released.
pub proof fn law_capture_is_released(m: SelectorMachine, e: SelectorEvent, n: SelectorMachine, fx: SelectorEffects)
    requires
        selector_step(m, e, n, fx),
        m.outcome is None,
        n.outcome is Some,
    ensures
        !n.dragging,
        m.dragging && !(e is CaptureLost) ==> fx.release_capture,
{
}

pub open spec fn on_monitor(m: RectI, p: PointI) -> bool {
    m.left <= p.x < m.right && m.top <= p.y < m.bottom
}

/// The window that takes the keyboard focus: the one on the monitor under the cursor, else
/// the first.
pub fn focus_window_index(monitors: &[RectI], cursor: Option<PointI>) -> (r: Option<usize>)
    ensures
        monitors@.len() == 0 ==> r is None,
        monitors@.len() > 0 ==> (r matches Some(i) && i < monitors@.len() && (match cursor {
            Some(p) => (on_monitor(monitors@[i as int], p) && forall|k: int|
                0 <= k < i ==> !on_monitor(#[trigger] monitors@[k], p)) || (i == 0 && forall|k: int|
                0 <= k < monitors@.len() ==> !on_monitor(#[trigger] monitors@[k], p)),
            None => i == 0,
        })),
{
    if monitors.len() == 0 {
        return None;
    }
    if let Some(p) = cursor {
        let mut i: usize = 0;
        while i < monitors.len()
            invariant
                i <= monitors@.len(),
                monitors@.len() > 0,
                cursor == Some(p),
                forall|k: int| 0 <= k < i ==> !on_monitor(#[trigger] monitors@[k], p),
            decreases monitors.len() - i,
        {
            if monitors[i].contains(p) {
                return Some(i);
            }
            i += 1;
        }
    }
    Some(0)
}

/// The result of a selector session: nothing when it was cancelled, else the crop of the
/// snapshot under the accepted rectangle.
pub fn selection_result(outcome: Option<Outcome>, pixels: &[u8], desktop: RectI) -> (r: Result<
    Option<CapturedRegion>,
    String,
>)
    ensures
        match outcome {
            Some(Outcome::Accepted { rect }) => match crop_error(pixels@.len() as int, desktop, rect) {
                Some(m) => (r matches Err(e) && e@ == m),
                None => (r matches Ok(Some(c)) && crop_ok(pixels@, desktop, intersection(rect, desktop), c))
                    || (r matches Err(e) && e@ == OUT_OF_MEMORY@),
            },
            _ => r matches Ok(None),
        },
{
    match outcome {
        Some(Outcome::Accepted { rect }) => match crop_bgra_top_down(pixels, desktop, rect) {
            Ok(c) => Ok(Some(c)),
            Err(e) => Err(e),
        },
        _ => Ok(None),
    }
}

/// The UTF-16 code units of one character: itself below U+10000, else a surrogate pair.
pub open spec fn utf16_units(c: char) -> Seq<u16> {
    let v = c as u32;
    if v < 0x10000 {
        seq![v as u16]
    } else {
        seq![(0xD800 + (v - 0x10000) / 1024) as u16, (0xDC00 + (v - 0x10000) % 1024) as u16]
    }
}

pub open spec fn utf16_of(s: Seq<char>) -> Seq<u16>
    decreases s.len(),
{
    if s.len() == 0 {
        Seq::empty()
    } else {
        utf16_of(s.drop_last()) + utf16_units(s.last())
    }
}

/// A text as the drawing calls take it: UTF-16 followed by a terminating zero.
pub struct Utf16 {
    pub units: Vec<u16>,
}

impl Utf16 {
    pub fn new(text: &str) -> (r: Self)
        ensures
            r.units@ == utf16_of(text@).push(0u16),
    {
        let v = crate::text::chars_of(text);
        let mut units: Vec<u16> = Vec::new();
        let mut i: usize = 0;
        while i < v.len()
            invariant
                i <= v@.len(),
                v@ == text@,
                units@ == utf16_of(v@.take(i as int)),
            decreases v.len() - i,
        {
            let c = v[i];
            let code = c as u32;
            proof {
                vstd::utf8::char_is_scalar(c);
            }
            if code < 0x10000 {
                units.push(code as u16);
            } else {
                let w = code - 0x10000;
                units.push((0xD800 + w / 1024) as u16);
                units.push((0xDC00 + w % 1024) as u16);
            }
            assert(v@.take(i + 1).drop_last() == v@.take(i as int));
            assert(v@.take(i + 1).last() == c);
            i += 1;
        }
        assert(v@.take(v@.len() as int) == v@);
        units.push(0);
        Utf16 { units }
    }

    /// The number of code units without the terminating zero, as GDI+ takes it.
    pub fn len(&self) -> (n: i32)
        ensures
            n == (if self.units@.len() == 0 {
                0
            } else if self.units@.len() - 1 > i32::MAX {
                i32::MAX as int
            } else {
                self.units@.len() - 1
            }),
    {
        let n = self.units.len();
        if n == 0 {
            0
        } else if n - 1 > i32::MAX as usize {
            i32::MAX
        } else {
            (n - 1) as i32
        }
    }
}

/// Escape, a right click, closing the window, a display or DPI change, losing the mouse
/// capture during a drag and losing the focus to another program all end a live selector
/// without a selection.
pub proof fn law_cancelling_events_select_nothing(
    m: SelectorMachine,
    e: SelectorEvent,
    n: SelectorMachine,
    fx: SelectorEffects,
)
    requires
        selector_step(m, e, n, fx),
        m.outcome is None,
        e is Escape || e is RightDown || e is CloseRequested || (e is CaptureLost && m.dragging)
            || e == (SelectorEvent::FocusLeft { to_own_window: false }),
    ensures
        n.outcome == Some(Outcome::Cancelled),
{
}

} // verus!
