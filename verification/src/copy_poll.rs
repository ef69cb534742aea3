//! What happens after the synthetic Ctrl+C: the clipboard is polled until the target
//! application's copy is stable, the user's clipboard is written back exactly once, and the
//! copied text is handed on only if the input target did not change.
//!
//! The decisions are a state machine (`CopyPoll`) whose transitions take what the system
//! reported as arguments; `finish_capture_after_copy` drives it with any `CopyProbe`,
//! through a `RecordedProbe` that keeps the record of the calls made and of their answers,
//! over which the drivers' contracts are stated.

use vstd::prelude::*;
use crate::capture::{same_target, same_target_spec, Captured, InputContext};
use crate::text::{all_ws, is_blank};

verus! {

pub const CONTEXT_CHANGED: &'static str = "Контекст копирования изменился; операция отменена";

pub const FIELD_CHANGED_DURING_COPY: &'static str = "Активное поле изменилось во время копирования";

pub const FIELD_CHANGED_AFTER_COPY: &'static str = "Активное поле изменилось после копирования";

/// Upper bound on probe calls while polling. Every loop here must be shown to end, and
/// how long polling goes on is the probe's decision (the system probe gives up after
/// 1.5 s of 10 ms pauses), so the loop counts its calls: a capture still undecided after
/// this many calls is treated as a timeout. No real probe comes near it.
pub const MAX_POLL_STEPS: u64 = 0xffff_ffff_ffff_ffff;

/// Who owns the clipboard relative to the copy we asked for.
#[derive(Clone, Copy, Debug, PartialEq, Eq, Structural)]
pub enum CopyOwnerRelation {
    Marker,
    Target,
    Unrelated,
}

/// Clipboard sequence number and input target seen at one moment.
#[derive(Clone, Debug)]
pub struct CopyObservation {
    pub sequence: u32,
    pub context: InputContext,
}

/// Text, sequence and owner read under one clipboard lock.
#[derive(Clone, Debug)]
pub struct ClipboardTextObservation {
    pub text: Option<String>,
    pub sequence: u32,
    pub owner: CopyOwnerRelation,
}

/// One call made on a probe, with what it answered.
pub enum ProbeCall {
    Observe(Result<CopyObservation, String>),
    ReadText(Result<ClipboardTextObservation, String>),
    Restore { sequence: u32, result: Result<(), String> },
    Wait(bool),
}

/// Everything done to the system after Ctrl+C was sent.
pub trait CopyProbe {
    fn observe(&mut self) -> Result<CopyObservation, String>;

    fn read_text(&mut self) -> Result<ClipboardTextObservation, String>;

    /// Writes the user's clipboard back, unless its sequence is no longer `sequence`.
    fn restore(&mut self, sequence: u32) -> Result<(), String>;

    /// Pauses before the next poll; `false` once the copy timeout has passed.
    fn wait(&mut self) -> bool;
}

/// A probe together with the record of every call made through it and of its answer.
pub struct RecordedProbe<P> {
    probe: P,
    log: Ghost<Seq<ProbeCall>>,
}

impl<P: CopyProbe> RecordedProbe<P> {
    /// Every call made through this wrapper so far, in order, with its answer.
    pub closed spec fn calls(&self) -> Seq<ProbeCall> {
        self.log@
    }

    pub closed spec fn inner_spec(&self) -> P {
        self.probe
    }

    /// Starts recording the calls made on `probe`.
    pub fn new(probe: P) -> (r: Self)
        ensures
            r.calls() == Seq::<ProbeCall>::empty(),
            r.inner_spec() == probe,
    {
        RecordedProbe { probe, log: Ghost(Seq::empty()) }
    }

    /// The wrapped probe.
    pub fn inner(&self) -> (p: &P)
        ensures
            *p == self.inner_spec(),
    {
        &self.probe
    }

    pub fn observe(&mut self) -> (r: Result<CopyObservation, String>)
        ensures
            final(self).calls() == old(self).calls().push(ProbeCall::Observe(r)),
    {
        let r = self.probe.observe();
        proof {
            self.log@ = self.log@.push(ProbeCall::Observe(r));
        }
        r
    }

    pub fn read_text(&mut self) -> (r: Result<ClipboardTextObservation, String>)
        ensures
            final(self).calls() == old(self).calls().push(ProbeCall::ReadText(r)),
    {
        let r = self.probe.read_text();
        proof {
            self.log@ = self.log@.push(ProbeCall::ReadText(r));
        }
        r
    }

    pub fn restore(&mut self, sequence: u32) -> (r: Result<(), String>)
        ensures
            final(self).calls() == old(self).calls().push(
                ProbeCall::Restore { sequence, result: r },
            ),
    {
        let r = self.probe.restore(sequence);
        proof {
            self.log@ = self.log@.push(ProbeCall::Restore { sequence, result: r });
        }
        r
    }

    pub fn wait(&mut self) -> (r: bool)
        ensures
            final(self).calls() == old(self).calls().push(ProbeCall::Wait(r)),
    {
        let r = self.probe.wait();
        proof {
            self.log@ = self.log@.push(ProbeCall::Wait(r));
        }
        r
    }
}

/// Outcome of the polling phase.
#[derive(Debug)]
pub enum Copied {
    /// The copied text (or `None` for an empty selection).
    Text(Option<String>),
    /// No copy appeared in time.
    Timeout,
}

/// Abstract outcome of polling.
pub enum PollOutcome {
    Text(Option<Seq<char>>),
    Timeout,
    Failed(Seq<char>),
}

/// Abstract result of the whole capture.
pub enum CaptureResult {
    Captured { text: Option<Seq<char>>, context: InputContext, replaced: bool },
    Failed(Seq<char>),
}

/// Where the machine stands and which report it waits for.
pub enum PollPhase {
    /// Waits for an observation of sequence and target.
    Observe,
    /// Waits for a clipboard text read.
    Read,
    /// Our marker was read at `sequence`; waits for an observation confirming it is stable.
    AfterMarkerRead { sequence: u32 },
    /// The target's copy was read at `sequence`; waits for a confirming observation.
    AfterTargetRead { sequence: u32, text: Option<Seq<char>> },
    /// Waits for the pause before the next poll.
    Wait,
    /// Polling is over; waits for the clipboard restore.
    Restore { outcome: PollOutcome },
    /// Restored after a successful copy; waits for the final target observation.
    FinalObserve { text: Option<Seq<char>> },
    /// The capture is decided.
    Done { result: CaptureResult },
}

pub struct PollState {
    pub phase: PollPhase,
    pub restore_sequence: u32,
}

pub open spec fn str_err<T>(r: Result<T, String>) -> Seq<char> {
    match r {
        Ok(_) => seq![],
        Err(e) => e@,
    }
}

pub open spec fn opt_view(t: Option<String>) -> Option<Seq<char>> {
    match t {
        Some(s) => Some(s@),
        None => None,
    }
}

/// The copied text is handed on unless it is our marker or blank.
pub open spec fn kept_text(text: Option<Seq<char>>, mark: Seq<char>) -> Option<Seq<char>> {
    match text {
        Some(s) => if s != mark && !all_ws(s) {
            Some(s)
        } else {
            None
        },
        None => None,
    }
}

/// `error` alone, or followed by the restore failure.
pub open spec fn merged_error(error: Seq<char>, restore: Result<(), String>) -> Seq<char> {
    match restore {
        Ok(()) => error,
        Err(r) => error + ". "@ + r@,
    }
}

pub open spec fn is_polling(p: PollPhase) -> bool {
    p is Observe || p is Read || p is AfterMarkerRead || p is AfterTargetRead || p is Wait
}

pub open spec fn expects_observation(p: PollPhase) -> bool {
    p is Observe || p is AfterMarkerRead || p is AfterTargetRead || p is FinalObserve
}

/// Transition on an observation.
pub open spec fn on_observed_spec(
    target: InputContext,
    marker_sequence: u32,
    s: PollState,
    r: Result<CopyObservation, String>,
) -> PollState {
    match r {
        Err(e) => match s.phase {
            PollPhase::FinalObserve { .. } => PollState {
                phase: PollPhase::Done { result: CaptureResult::Failed(e@) },
                ..s
            },
            _ => PollState {
                phase: PollPhase::Restore { outcome: PollOutcome::Failed(e@) },
                ..s
            },
        },
        Ok(o) => match s.phase {
            PollPhase::Observe => if o.sequence != marker_sequence {
                PollState { phase: PollPhase::Read, ..s }
            } else if !same_target_spec(target, o.context) {
                PollState {
                    phase: PollPhase::Restore {
                        outcome: PollOutcome::Failed(FIELD_CHANGED_DURING_COPY@),
                    },
                    ..s
                }
            } else {
                PollState { phase: PollPhase::Wait, ..s }
            },
            PollPhase::AfterMarkerRead { sequence } => if o.sequence != sequence {
                PollState { phase: PollPhase::Observe, ..s }
            } else if !same_target_spec(target, o.context) {
                PollState {
                    phase: PollPhase::Restore {
                        outcome: PollOutcome::Failed(FIELD_CHANGED_DURING_COPY@),
                    },
                    restore_sequence: sequence,
                }
            } else {
                PollState { phase: PollPhase::Wait, restore_sequence: sequence }
            },
            PollPhase::AfterTargetRead { sequence, text } => if o.sequence != sequence {
                PollState { phase: PollPhase::Observe, ..s }
            } else if !same_target_spec(target, o.context) {
                PollState {
                    phase: PollPhase::Restore {
                        outcome: PollOutcome::Failed(FIELD_CHANGED_DURING_COPY@),
                    },
                    restore_sequence: o.sequence,
                }
            } else {
                PollState {
                    phase: PollPhase::Restore { outcome: PollOutcome::Text(text) },
                    restore_sequence: o.sequence,
                }
            },
            PollPhase::FinalObserve { text } => if !same_target_spec(target, o.context) {
                PollState {
                    phase: PollPhase::Done {
                        result: CaptureResult::Failed(FIELD_CHANGED_AFTER_COPY@),
                    },
                    ..s
                }
            } else {
                PollState {
                    phase: PollPhase::Done {
                        result: CaptureResult::Captured { text, context: o.context, replaced: false },
                    },
                    ..s
                }
            },
            _ => s,
        },
    }
}

/// Transition on a clipboard text read.
pub open spec fn on_read_spec(
    mark: Seq<char>,
    s: PollState,
    r: Result<ClipboardTextObservation, String>,
) -> PollState {
    match r {
        Err(e) => PollState { phase: PollPhase::Restore { outcome: PollOutcome::Failed(e@) }, ..s },
        Ok(c) => match c.owner {
            CopyOwnerRelation::Marker => if opt_view(c.text) != Some(mark) {
                PollState {
                    phase: PollPhase::Restore { outcome: PollOutcome::Failed(CONTEXT_CHANGED@) },
                    ..s
                }
            } else {
                PollState { phase: PollPhase::AfterMarkerRead { sequence: c.sequence }, ..s }
            },
            CopyOwnerRelation::Unrelated => PollState {
                phase: PollPhase::Restore { outcome: PollOutcome::Failed(CONTEXT_CHANGED@) },
                ..s
            },
            CopyOwnerRelation::Target => PollState {
                phase: PollPhase::AfterTargetRead {
                    sequence: c.sequence,
                    text: kept_text(opt_view(c.text), mark),
                },
                ..s
            },
        },
    }
}

/// Transition on the end of a pause.
pub open spec fn on_waited_spec(s: PollState, keep_polling: bool) -> PollState {
    if keep_polling {
        PollState { phase: PollPhase::Observe, ..s }
    } else {
        PollState { phase: PollPhase::Restore { outcome: PollOutcome::Timeout }, ..s }
    }
}

/// Transition on the clipboard restore.
pub open spec fn on_restored_spec(
    target: InputContext,
    s: PollState,
    r: Result<(), String>,
) -> PollState {
    match s.phase {
        PollPhase::Restore { outcome } => match outcome {
            PollOutcome::Failed(e) => PollState {
                phase: PollPhase::Done { result: CaptureResult::Failed(merged_error(e, r)) },
                ..s
            },
            PollOutcome::Timeout => PollState {
                phase: PollPhase::Done {
                    result: CaptureResult::Captured { text: None, context: target, replaced: false },
                },
                ..s
            },
            PollOutcome::Text(t) => PollState { phase: PollPhase::FinalObserve { text: t }, ..s },
        },
        _ => s,
    }
}

/// Polling stopped because the step budget ran out: treated as a timeout.
pub open spec fn on_budget_spent_spec(s: PollState) -> PollState {
    PollState { phase: PollPhase::Restore { outcome: PollOutcome::Timeout }, ..s }
}

/// The state in which call number `i` of a polling run is made: a capture still undecided
/// after `MAX_POLL_STEPS` calls counts as timed out.
pub open spec fn at_call(s: PollState, i: int) -> PollState {
    if is_polling(s.phase) && i >= MAX_POLL_STEPS {
        on_budget_spent_spec(s)
    } else {
        s
    }
}

/// `c` is the call that the machine asks for in state `s`; a restore is made under the
/// sequence it names.
pub open spec fn asked_for(s: PollState, c: ProbeCall) -> bool {
    match request_spec(s) {
        PollRequest::Observe => c is Observe,
        PollRequest::ReadText => c is ReadText,
        PollRequest::Wait => c is Wait,
        PollRequest::Restore(expected) => c matches ProbeCall::Restore { sequence, .. }
            && sequence == expected,
        PollRequest::Done => false,
    }
}

/// The machine's move on the answer to `c`.
pub open spec fn on_call_spec(
    target: InputContext,
    mark: Seq<char>,
    marker_sequence: u32,
    s: PollState,
    c: ProbeCall,
) -> PollState {
    match c {
        ProbeCall::Observe(r) => on_observed_spec(target, marker_sequence, s, r),
        ProbeCall::ReadText(r) => on_read_spec(mark, s, r),
        ProbeCall::Wait(keep_polling) => on_waited_spec(s, keep_polling),
        ProbeCall::Restore { result, .. } => on_restored_spec(target, s, result),
    }
}

/// The machine's state after the calls of a run that started in `s`.
pub open spec fn replay(
    target: InputContext,
    mark: Seq<char>,
    marker_sequence: u32,
    s: PollState,
    calls: Seq<ProbeCall>,
) -> PollState
    decreases calls.len(),
{
    if calls.len() == 0 {
        s
    } else {
        let before = replay(target, mark, marker_sequence, s, calls.drop_last());
        on_call_spec(
            target,
            mark,
            marker_sequence,
            at_call(before, calls.len() - 1),
            calls.last(),
        )
    }
}

/// Every call of a run that started in `s` is the one the machine asked for at that point.
pub open spec fn follows_requests(
    target: InputContext,
    mark: Seq<char>,
    marker_sequence: u32,
    s: PollState,
    calls: Seq<ProbeCall>,
) -> bool {
    forall|i: int|
        0 <= i < calls.len() ==> #[trigger] asked_for(
            at_call(replay(target, mark, marker_sequence, s, calls.take(i)), i),
            calls[i],
        )
}

pub open spec fn is_restore(c: ProbeCall) -> bool {
    c is Restore
}

/// The calls made on a probe since its record was `before`.
pub open spec fn calls_since(now: Seq<ProbeCall>, before: Seq<ProbeCall>) -> Seq<ProbeCall> {
    now.skip(before.len() as int)
}

/// The state in which a capture starts, right after the marker was written.
pub open spec fn initial_poll(marker_sequence: u32) -> PollState {
    PollState { phase: PollPhase::Observe, restore_sequence: marker_sequence }
}

pub open spec fn unit_result_view(r: Result<(), String>) -> Result<(), Seq<char>> {
    match r {
        Ok(()) => Ok(()),
        Err(e) => Err(e@),
    }
}

/// What a restore reports: its own answer, or the error that ended the capture, joined
/// with the restore failure when there is one.
pub open spec fn restore_report(restore: Result<(), String>, error: Option<Seq<char>>) -> Result<
    (),
    Seq<char>,
> {
    match error {
        None => unit_result_view(restore),
        Some(e) => Err(merged_error(e, restore)),
    }
}

pub open spec fn text_ok(t: Option<Seq<char>>, mark: Seq<char>) -> bool {
    t matches Some(s) ==> s != mark && !all_ws(s)
}

/// What every reachable state keeps: texts on their way out are never the marker and never
/// blank, and a decided capture names the original target.
pub open spec fn poll_inv(target: InputContext, mark: Seq<char>, s: PollState) -> bool {
    match s.phase {
        PollPhase::AfterTargetRead { text, .. } => text_ok(text, mark),
        PollPhase::Restore { outcome } => outcome matches PollOutcome::Text(t) ==> text_ok(t, mark),
        PollPhase::FinalObserve { text } => text_ok(text, mark),
        PollPhase::Done { result } => result matches CaptureResult::Captured {
            text,
            context,
            replaced,
        } ==> (text_ok(text, mark) && same_target_spec(target, context) && !replaced),
        _ => true,
    }
}

pub open spec fn capture_result_view(r: Result<Captured, String>) -> CaptureResult {
    match r {
        Ok(c) => CaptureResult::Captured {
            text: opt_view(c.text),
            context: c.context,
            replaced: c.clipboard_replaced,
        },
        Err(e) => CaptureResult::Failed(e@),
    }
}

pub open spec fn poll_outcome_view(r: Result<Copied, String>) -> PollOutcome {
    match r {
        Ok(Copied::Text(t)) => PollOutcome::Text(opt_view(t)),
        Ok(Copied::Timeout) => PollOutcome::Timeout,
        Err(e) => PollOutcome::Failed(e@),
    }
}

enum Phase {
    Observe,
    Read,
    AfterMarkerRead(u32),
    AfterTargetRead(u32, Option<String>),
    Wait,
    Restore(Result<Copied, String>),
    FinalObserve(Option<String>),
    Done(Result<Captured, String>),
}

spec fn phase_view(p: Phase) -> PollPhase {
    match p {
        Phase::Observe => PollPhase::Observe,
        Phase::Read => PollPhase::Read,
        Phase::AfterMarkerRead(sequence) => PollPhase::AfterMarkerRead { sequence },
        Phase::AfterTargetRead(sequence, t) => PollPhase::AfterTargetRead {
            sequence,
            text: opt_view(t),
        },
        Phase::Wait => PollPhase::Wait,
        Phase::Restore(r) => PollPhase::Restore { outcome: poll_outcome_view(r) },
        Phase::FinalObserve(t) => PollPhase::FinalObserve { text: opt_view(t) },
        Phase::Done(r) => PollPhase::Done { result: capture_result_view(r) },
    }
}

/// What the machine asks the system for next.
#[derive(Clone, Copy, Debug, PartialEq, Eq, Structural)]
pub enum PollRequest {
    Observe,
    ReadText,
    Wait,
    Restore(u32),
    Done,
}

pub open spec fn request_spec(s: PollState) -> PollRequest {
    match s.phase {
        PollPhase::Observe | PollPhase::AfterMarkerRead { .. } | PollPhase::AfterTargetRead {
            ..
        } | PollPhase::FinalObserve { .. } => PollRequest::Observe,
        PollPhase::Read => PollRequest::ReadText,
        PollPhase::Wait => PollRequest::Wait,
        PollPhase::Restore { .. } => PollRequest::Restore(s.restore_sequence),
        PollPhase::Done { .. } => PollRequest::Done,
    }
}

/// The decision state of one capture after Ctrl+C.
pub struct CopyPoll {
    target: InputContext,
    mark: String,
    marker_sequence: u32,
    restore_sequence: u32,
    phase: Phase,
}

impl View for CopyPoll {
    type V = PollState;

    closed spec fn view(&self) -> PollState {
        PollState { phase: phase_view(self.phase), restore_sequence: self.restore_sequence }
    }
}

impl CopyPoll {
    pub closed spec fn target_spec(&self) -> InputContext {
        self.target
    }

    pub closed spec fn mark_spec(&self) -> Seq<char> {
        self.mark@
    }

    pub closed spec fn marker_sequence_spec(&self) -> u32 {
        self.marker_sequence
    }

    /// Starts polling right after the marker was written at `marker_sequence`; until a
    /// stable read says otherwise, the clipboard is restored under that sequence.
    pub fn new(target: &InputContext, mark: &str, marker_sequence: u32) -> (m: Self)
        ensures
            m@.phase == PollPhase::Observe,
            m@.restore_sequence == marker_sequence,
            m.target_spec() == *target,
            m.mark_spec() == mark@,
            m.marker_sequence_spec() == marker_sequence,
            poll_inv(m.target_spec(), m.mark_spec(), m@),
    {
        CopyPoll {
            target: *target,
            mark: mark.to_owned(),
            marker_sequence,
            restore_sequence: marker_sequence,
            phase: Phase::Observe,
        }
    }

    pub fn request(&self) -> (r: PollRequest)
        ensures
            r == request_spec(self@),
    {
        match &self.phase {
            Phase::Observe | Phase::AfterMarkerRead(_) | Phase::AfterTargetRead(_, _)
            | Phase::FinalObserve(_) => PollRequest::Observe,
            Phase::Read => PollRequest::ReadText,
            Phase::Wait => PollRequest::Wait,
            Phase::Restore(_) => PollRequest::Restore(self.restore_sequence),
            Phase::Done(_) => PollRequest::Done,
        }
    }

    pub fn is_polling(&self) -> (r: bool)
        ensures
            r == is_polling(self@.phase),
    {
        match &self.phase {
            Phase::Observe | Phase::Read | Phase::AfterMarkerRead(_) | Phase::AfterTargetRead(
                _,
                _,
            ) | Phase::Wait => true,
            _ => false,
        }
    }

    pub fn on_observed(&mut self, r: Result<CopyObservation, String>)
        requires
            poll_inv(old(self).target_spec(), old(self).mark_spec(), old(self)@),
            expects_observation(old(self)@.phase),
        ensures
            poll_inv(final(self).target_spec(), final(self).mark_spec(), final(self)@),
            final(self)@ == on_observed_spec(
                old(self).target_spec(),
                old(self).marker_sequence_spec(),
                old(self)@,
                r,
            ),
            final(self).target_spec() == old(self).target_spec(),
            final(self).mark_spec() == old(self).mark_spec(),
            final(self).marker_sequence_spec() == old(self).marker_sequence_spec(),
    {
        let mut phase = Phase::Wait;
        std::mem::swap(&mut phase, &mut self.phase);
        match r {
            Err(e) => {
                match phase {
                    Phase::FinalObserve(_) => {
                        self.phase = Phase::Done(Err(e));
                    },
                    _ => {
                        self.phase = Phase::Restore(Err(e));
                    },
                }
            },
            Ok(o) => {
                match phase {
                    Phase::Observe => {
                        if o.sequence != self.marker_sequence {
                            self.phase = Phase::Read;
                        } else if !same_target(&self.target, &o.context) {
                            self.phase = Phase::Restore(
                                Err(FIELD_CHANGED_DURING_COPY.to_owned()),
                            );
                        } else {
                            self.phase = Phase::Wait;
                        }
                    },
                    Phase::AfterMarkerRead(sequence) => {
                        if o.sequence != sequence {
                            self.phase = Phase::Observe;
                        } else {
                            self.restore_sequence = sequence;
                            if !same_target(&self.target, &o.context) {
                                self.phase = Phase::Restore(
                                    Err(FIELD_CHANGED_DURING_COPY.to_owned()),
                                );
                            } else {
                                self.phase = Phase::Wait;
                            }
                        }
                    },
                    Phase::AfterTargetRead(sequence, text) => {
                        if o.sequence != sequence {
                            self.phase = Phase::Observe;
                        } else {
                            self.restore_sequence = o.sequence;
                            if !same_target(&self.target, &o.context) {
                                self.phase = Phase::Restore(
                                    Err(FIELD_CHANGED_DURING_COPY.to_owned()),
                                );
                            } else {
                                self.phase = Phase::Restore(Ok(Copied::Text(text)));
                            }
                        }
                    },
                    Phase::FinalObserve(text) => {
                        if !same_target(&self.target, &o.context) {
                            self.phase = Phase::Done(Err(FIELD_CHANGED_AFTER_COPY.to_owned()));
                        } else {
                            self.phase = Phase::Done(
                                Ok(Captured { text, context: o.context, clipboard_replaced: false }),
                            );
                        }
                    },
                    other => {
                        self.phase = other;
                    },
                }
            },
        }
    }

    pub fn on_read(&mut self, r: Result<ClipboardTextObservation, String>)
        requires
            poll_inv(old(self).target_spec(), old(self).mark_spec(), old(self)@),
            old(self)@.phase is Read,
        ensures
            poll_inv(final(self).target_spec(), final(self).mark_spec(), final(self)@),
            final(self)@ == on_read_spec(old(self).mark_spec(), old(self)@, r),
            final(self).target_spec() == old(self).target_spec(),
            final(self).mark_spec() == old(self).mark_spec(),
            final(self).marker_sequence_spec() == old(self).marker_sequence_spec(),
    {
        match r {
            Err(e) => {
                self.phase = Phase::Restore(Err(e));
            },
            Ok(c) => {
                match c.owner {
                    CopyOwnerRelation::Marker => {
                        let is_mark = match &c.text {
                            Some(t) => *t == self.mark,
                            None => false,
                        };
                        if !is_mark {
                            self.phase = Phase::Restore(Err(CONTEXT_CHANGED.to_owned()));
                        } else {
                            self.phase = Phase::AfterMarkerRead(c.sequence);
                        }
                    },
                    CopyOwnerRelation::Unrelated => {
                        self.phase = Phase::Restore(Err(CONTEXT_CHANGED.to_owned()));
                    },
                    CopyOwnerRelation::Target => {
                        let kept = keep_text(c.text, &self.mark);
                        self.phase = Phase::AfterTargetRead(c.sequence, kept);
                    },
                }
            },
        }
    }

    pub fn on_waited(&mut self, keep_polling: bool)
        requires
            poll_inv(old(self).target_spec(), old(self).mark_spec(), old(self)@),
            old(self)@.phase is Wait,
        ensures
            poll_inv(final(self).target_spec(), final(self).mark_spec(), final(self)@),
            final(self)@ == on_waited_spec(old(self)@, keep_polling),
            final(self).target_spec() == old(self).target_spec(),
            final(self).mark_spec() == old(self).mark_spec(),
            final(self).marker_sequence_spec() == old(self).marker_sequence_spec(),
    {
        if keep_polling {
            self.phase = Phase::Observe;
        } else {
            self.phase = Phase::Restore(Ok(Copied::Timeout));
        }
    }

    pub fn on_budget_spent(&mut self)
        requires
            poll_inv(old(self).target_spec(), old(self).mark_spec(), old(self)@),
            is_polling(old(self)@.phase),
        ensures
            poll_inv(final(self).target_spec(), final(self).mark_spec(), final(self)@),
            final(self)@ == on_budget_spent_spec(old(self)@),
            final(self).target_spec() == old(self).target_spec(),
            final(self).mark_spec() == old(self).mark_spec(),
            final(self).marker_sequence_spec() == old(self).marker_sequence_spec(),
    {
        self.phase = Phase::Restore(Ok(Copied::Timeout));
    }

    pub fn on_restored(&mut self, r: Result<(), String>)
        requires
            poll_inv(old(self).target_spec(), old(self).mark_spec(), old(self)@),
            old(self)@.phase is Restore,
        ensures
            poll_inv(final(self).target_spec(), final(self).mark_spec(), final(self)@),
            final(self)@ == on_restored_spec(old(self).target_spec(), old(self)@, r),
            final(self).target_spec() == old(self).target_spec(),
            final(self).mark_spec() == old(self).mark_spec(),
            final(self).marker_sequence_spec() == old(self).marker_sequence_spec(),
    {
        let mut phase = Phase::Wait;
        std::mem::swap(&mut phase, &mut self.phase);
        match phase {
            Phase::Restore(outcome) => {
                match outcome {
                    Err(e) => {
                        let merged = merge_restore_error(r, Some(e));
                        match merged {
                            Err(m) => {
                                self.phase = Phase::Done(Err(m));
                            },
                            Ok(()) => {
                                self.phase = Phase::Wait;
                            },
                        }
                    },
                    Ok(Copied::Timeout) => {
                        self.phase = Phase::Done(
                            Ok(
                                Captured {
                                    text: None,
                                    context: self.target,
                                    clipboard_replaced: false,
                                },
                            ),
                        );
                    },
                    Ok(Copied::Text(t)) => {
                        self.phase = Phase::FinalObserve(t);
                    },
                }
            },
            other => {
                self.phase = other;
            },
        }
    }

    /// The decided capture.
    pub fn into_result(self) -> (r: Result<Captured, String>)
        requires
            self@.phase is Done,
            poll_inv(self.target_spec(), self.mark_spec(), self@),
        ensures
            self@.phase == (PollPhase::Done { result: capture_result_view(r) }),
    {
        match self.phase {
            Phase::Done(r) => r,
            _ => Err(CONTEXT_CHANGED.to_owned()),
        }
    }

    /// The polling outcome, once polling is over.
    pub fn poll_outcome(&self) -> (r: Result<Copied, String>)
        requires
            self@.phase is Restore,
        ensures
            self@.phase == (PollPhase::Restore { outcome: poll_outcome_view(r) }),
    {
        match &self.phase {
            Phase::Restore(Ok(Copied::Text(t))) => Ok(Copied::Text(t.clone())),
            Phase::Restore(Ok(Copied::Timeout)) => Ok(Copied::Timeout),
            Phase::Restore(Err(e)) => Err(e.clone()),
            _ => Ok(Copied::Timeout),
        }
    }

    pub fn restore_sequence(&self) -> (r: u32)
        ensures
            r == self@.restore_sequence,
    {
        self.restore_sequence
    }
}

/// The copied text unless it is the marker or blank.
fn keep_text(text: Option<String>, mark: &String) -> (r: Option<String>)
    ensures
        opt_view(r) == kept_text(opt_view(text), mark@),
{
    match text {
        Some(t) => {
            let same = t == *mark;
            if !same && !is_blank(t.as_str()) {
                Some(t)
            } else {
                None
            }
        },
        None => None,
    }
}

/// Joins the reason for giving up with a failed restore of the clipboard, so the user sees
/// the original cause first.
pub fn merge_restore_error(restore: Result<(), String>, error: Option<String>) -> (r: Result<
    (),
    String,
>)
    ensures
        match (restore, error) {
            (Ok(()), None) => r is Ok,
            (Ok(()), Some(e)) => r matches Err(m) && m@ == e@,
            (Err(re), None) => r matches Err(m) && m@ == re@,
            (Err(re), Some(e)) => r matches Err(m) && m@ == e@ + ". "@ + re@,
        },
{
    match (restore, error) {
        (Ok(()), None) => Ok(()),
        (Ok(()), Some(error)) => Err(error),
        (Err(restore_error), None) => Err(restore_error),
        (Err(restore_error), Some(error)) => {
            let mut m = error;
            m.append(". ");
            m.append(restore_error.as_str());
            Err(m)
        },
    }
}

/// Restores the clipboard once, under `sequence`, and joins a restore failure to the error
/// that ended the capture, so the user sees the original cause first.
pub fn restore_clipboard<P: CopyProbe>(probe: &mut RecordedProbe<P>, sequence: u32, error: Option<String>) -> (r:
    Result<(), String>)
    ensures
        final(probe).calls().len() == old(probe).calls().len() + 1,
        final(probe).calls().drop_last() == old(probe).calls(),
        final(probe).calls().last() matches ProbeCall::Restore { sequence: s, result: o } && s
            == sequence && unit_result_view(r) == restore_report(o, opt_view(error)),
        error is Some ==> r is Err,
{
    let restored = probe.restore(sequence);
    let ghost answer = restored;
    let ghost given = error;
    let r = merge_restore_error(restored, error);
    proof {
        assert(final(probe).calls().drop_last() =~= old(probe).calls());
        assert(unit_result_view(r) == restore_report(answer, opt_view(given)));
    }
    r
}

/// A run extended by one call replays as the run followed by that call.
proof fn lemma_replay_push(
    target: InputContext,
    mark: Seq<char>,
    marker_sequence: u32,
    s: PollState,
    calls: Seq<ProbeCall>,
    c: ProbeCall,
)
    ensures
        replay(target, mark, marker_sequence, s, calls.push(c)) == on_call_spec(
            target,
            mark,
            marker_sequence,
            at_call(replay(target, mark, marker_sequence, s, calls), calls.len() as int),
            c,
        ),
{
    assert(calls.push(c).drop_last() =~= calls);
}

/// A run that followed the requests still does after one more call that was asked for.
proof fn lemma_follows_push(
    target: InputContext,
    mark: Seq<char>,
    marker_sequence: u32,
    s: PollState,
    calls: Seq<ProbeCall>,
    c: ProbeCall,
)
    requires
        follows_requests(target, mark, marker_sequence, s, calls),
        asked_for(
            at_call(replay(target, mark, marker_sequence, s, calls), calls.len() as int),
            c,
        ),
    ensures
        follows_requests(target, mark, marker_sequence, s, calls.push(c)),
{
    let pushed = calls.push(c);
    assert forall|i: int| 0 <= i < pushed.len() implies #[trigger] asked_for(
        at_call(replay(target, mark, marker_sequence, s, pushed.take(i)), i),
        pushed[i],
    ) by {
        if i < calls.len() {
            assert(pushed.take(i) =~= calls.take(i));
            assert(asked_for(
                at_call(replay(target, mark, marker_sequence, s, calls.take(i)), i),
                calls[i],
            ));
        } else {
            assert(pushed.take(i) =~= calls);
        }
    }
}

/// Polls until the copy is decided; the machine then waits for the restore. Polling only
/// observes, reads and waits: it never restores the clipboard. Every call is the one the
/// machine asked for, and the machine ends where the answers lead it.
pub fn poll_copied_text<P: CopyProbe>(probe: &mut RecordedProbe<P>, machine: &mut CopyPoll)
    requires
        is_polling(old(machine)@.phase),
        poll_inv(old(machine).target_spec(), old(machine).mark_spec(), old(machine)@),
    ensures
        final(machine)@.phase is Restore,
        poll_inv(final(machine).target_spec(), final(machine).mark_spec(), final(machine)@),
        final(machine).target_spec() == old(machine).target_spec(),
        final(machine).mark_spec() == old(machine).mark_spec(),
        final(machine).marker_sequence_spec() == old(machine).marker_sequence_spec(),
        final(probe).calls() == old(probe).calls() + calls_since(
            final(probe).calls(),
            old(probe).calls(),
        ),
        calls_since(final(probe).calls(), old(probe).calls()).len() <= MAX_POLL_STEPS,
        forall|i: int|
            0 <= i < calls_since(final(probe).calls(), old(probe).calls()).len() ==> !is_restore(
                #[trigger] calls_since(final(probe).calls(), old(probe).calls())[i],
            ),
        follows_requests(
            old(machine).target_spec(),
            old(machine).mark_spec(),
            old(machine).marker_sequence_spec(),
            old(machine)@,
            calls_since(final(probe).calls(), old(probe).calls()),
        ),
        final(machine)@ == at_call(
            replay(
                old(machine).target_spec(),
                old(machine).mark_spec(),
                old(machine).marker_sequence_spec(),
                old(machine)@,
                calls_since(final(probe).calls(), old(probe).calls()),
            ),
            calls_since(final(probe).calls(), old(probe).calls()).len() as int,
        ),
{
    let ghost target = machine.target_spec();
    let ghost mark = machine.mark_spec();
    let ghost ms = machine.marker_sequence_spec();
    let ghost start = machine@;
    let ghost before = probe.calls();
    let ghost mut polls: Seq<ProbeCall> = Seq::empty();
    let mut steps: u64 = 0;
    while machine.is_polling()
        invariant
            is_polling(machine@.phase) || machine@.phase is Restore,
            steps <= MAX_POLL_STEPS,
            poll_inv(machine.target_spec(), machine.mark_spec(), machine@),
            machine.target_spec() == target,
            machine.mark_spec() == mark,
            machine.marker_sequence_spec() == ms,
            probe.calls() == before + polls,
            polls.len() == steps,
            forall|i: int| 0 <= i < polls.len() ==> !is_restore(#[trigger] polls[i]),
            follows_requests(target, mark, ms, start, polls),
            machine@ == replay(target, mark, ms, start, polls) || (machine@ == on_budget_spent_spec(
                replay(target, mark, ms, start, polls),
            ) && is_polling(replay(target, mark, ms, start, polls).phase) && steps
                == MAX_POLL_STEPS),
            is_polling(machine@.phase) ==> machine@ == replay(target, mark, ms, start, polls),
        decreases MAX_POLL_STEPS - steps, if is_polling(machine@.phase) {
            1int
        } else {
            0int
        },
    {
        if steps == MAX_POLL_STEPS {
            machine.on_budget_spent();
        } else {
            let ghost pre = machine@;
            let ghost pre_calls = probe.calls();
            let ghost call: ProbeCall;
            match machine.request() {
                PollRequest::Observe => {
                    let r = probe.observe();
                    proof {
                        call = ProbeCall::Observe(r);
                    }
                    machine.on_observed(r);
                },
                PollRequest::ReadText => {
                    let r = probe.read_text();
                    proof {
                        call = ProbeCall::ReadText(r);
                    }
                    machine.on_read(r);
                },
                PollRequest::Wait => {
                    let keep = probe.wait();
                    proof {
                        call = ProbeCall::Wait(keep);
                    }
                    machine.on_waited(keep);
                },
                _ => {
                    // A polling machine asks only to observe, to read or to wait.
                    proof {
                        assert(false);
                        call = ProbeCall::Wait(true);
                    }
                },
            }
            proof {
                assert(at_call(pre, polls.len() as int) == pre);
                lemma_replay_push(target, mark, ms, start, polls, call);
                lemma_follows_push(target, mark, ms, start, polls, call);
                assert(probe.calls() =~= before + polls.push(call));
                polls = polls.push(call);
            }
            steps += 1;
        }
    }
    proof {
        assert(calls_since(probe.calls(), before) =~= polls);
    }
}

/// Drives the whole post-copy protocol: poll, restore the user's clipboard exactly once
/// under the sequence that polling kept, and confirm the target did not change. Every call
/// on the probe is the one the machine asked for, and the result is the machine's decision
/// on the answers.
pub fn finish_capture_after_copy<P: CopyProbe>(
    probe: &mut RecordedProbe<P>,
    target: &InputContext,
    mark: &str,
    marker_sequence: u32,
) -> (r: Result<Captured, String>)
    ensures
        r matches Ok(c) ==> !c.clipboard_replaced && same_target_spec(*target, c.context),
        r matches Ok(c) ==> (c.text matches Some(t) ==> t@ != mark@ && !all_ws(t@)),
        final(probe).calls() == old(probe).calls() + calls_since(
            final(probe).calls(),
            old(probe).calls(),
        ),
        follows_requests(
            *target,
            mark@,
            marker_sequence,
            initial_poll(marker_sequence),
            calls_since(final(probe).calls(), old(probe).calls()),
        ),
        replay(
            *target,
            mark@,
            marker_sequence,
            initial_poll(marker_sequence),
            calls_since(final(probe).calls(), old(probe).calls()),
        ).phase == (PollPhase::Done { result: capture_result_view(r) }),
        exists|k: int|
            0 <= k < calls_since(final(probe).calls(), old(probe).calls()).len()
                && (#[trigger] calls_since(final(probe).calls(), old(probe).calls())[k] matches
                ProbeCall::Restore { sequence, .. } && sequence == at_call(
                replay(
                    *target,
                    mark@,
                    marker_sequence,
                    initial_poll(marker_sequence),
                    calls_since(final(probe).calls(), old(probe).calls()).take(k),
                ),
                k,
            ).restore_sequence) && forall|i: int|
                0 <= i < calls_since(final(probe).calls(), old(probe).calls()).len() && i != k
                    ==> !is_restore(
                    #[trigger] calls_since(final(probe).calls(), old(probe).calls())[i],
                ),
{
    let ghost before = probe.calls();
    let ghost tg = *target;
    let ghost mk = mark@;
    let mut machine = CopyPoll::new(target, mark, marker_sequence);
    poll_copied_text(probe, &mut machine);
    let ghost polls = calls_since(probe.calls(), before);
    let ghost polled = machine@;
    let sequence = machine.restore_sequence();
    let restored = probe.restore(sequence);
    let ghost restore_call = ProbeCall::Restore { sequence, result: restored };
    machine.on_restored(restored);
    let ghost mut run = polls.push(restore_call);
    proof {
        lemma_replay_push(tg, mk, marker_sequence, initial_poll(marker_sequence), polls, restore_call);
        lemma_follows_push(tg, mk, marker_sequence, initial_poll(marker_sequence), polls, restore_call);
        assert(probe.calls() =~= before + run);
        assert(machine@ == replay(tg, mk, marker_sequence, initial_poll(marker_sequence), run));
    }
    if machine.request() == PollRequest::Observe {
        let r = probe.observe();
        let ghost observe_call = ProbeCall::Observe(r);
        machine.on_observed(r);
        proof {
            assert(at_call(
                replay(tg, mk, marker_sequence, initial_poll(marker_sequence), run),
                run.len() as int,
            ) == replay(tg, mk, marker_sequence, initial_poll(marker_sequence), run));
            lemma_replay_push(tg, mk, marker_sequence, initial_poll(marker_sequence), run, observe_call);
            lemma_follows_push(tg, mk, marker_sequence, initial_poll(marker_sequence), run, observe_call);
            assert(probe.calls() =~= before + run.push(observe_call));
            run = run.push(observe_call);
        }
    }
    proof {
        assert(calls_since(probe.calls(), before) =~= run);
        let k = polls.len() as int;
        assert(run.take(k) =~= polls);
        assert(run[k] == restore_call);
        assert forall|i: int| 0 <= i < run.len() && i != k implies !is_restore(#[trigger] run[i]) by {
            if i < k {
                assert(run[i] == polls[i]);
            }
        }
        assert(run[k] matches ProbeCall::Restore { sequence, .. } && sequence == at_call(
            replay(tg, mk, marker_sequence, initial_poll(marker_sequence), run.take(k)),
            k,
        ).restore_sequence);
    }
    machine.into_result()
}

/// Every report keeps the capture's invariant: a text on its way out is never our marker
/// and never blank, and a decided capture names the field the copy was asked from.
pub proof fn law_reports_keep_the_invariant(
    target: InputContext,
    mark: Seq<char>,
    marker_sequence: u32,
    s: PollState,
    observed: Result<CopyObservation, String>,
    read: Result<ClipboardTextObservation, String>,
    keep_polling: bool,
    restored: Result<(), String>,
)
    requires
        poll_inv(target, mark, s),
    ensures
        poll_inv(target, mark, on_observed_spec(target, marker_sequence, s, observed)),
        poll_inv(target, mark, on_read_spec(mark, s, read)),
        poll_inv(target, mark, on_waited_spec(s, keep_polling)),
        poll_inv(target, mark, on_restored_spec(target, s, restored)),
        poll_inv(target, mark, on_budget_spent_spec(s)),
{
}

/// Polling never resumes once it stopped, and the clipboard is restored once: after the
/// restore no report leads back to polling or to another restore (a decided capture takes
/// no further observation).
pub proof fn law_clipboard_is_restored_once(
    target: InputContext,
    mark: Seq<char>,
    marker_sequence: u32,
    s: PollState,
    observed: Result<CopyObservation, String>,
    restored: Result<(), String>,
)
    ensures
        !is_polling(s.phase) ==> !is_polling(
            on_observed_spec(target, marker_sequence, s, observed).phase,
        ),
        !is_polling(s.phase) ==> !is_polling(on_restored_spec(target, s, restored).phase),
        s.phase is FinalObserve ==> !(on_observed_spec(
            target,
            marker_sequence,
            s,
            observed,
        ).phase is Restore),
        (s.phase is FinalObserve || s.phase is Done) ==> !(on_restored_spec(
            target,
            s,
            restored,
        ).phase is Restore),
        s.phase is Restore ==> !(on_restored_spec(target, s, restored).phase is Restore),
{
}

/// Content that neither our marker nor the target wrote aborts the capture, and the
/// error that is finally reported carries the restore failure next to it.
pub proof fn law_foreign_clipboard_content_aborts(
    target: InputContext,
    mark: Seq<char>,
    s: PollState,
    read: ClipboardTextObservation,
    restored: Result<(), String>,
)
    requires
        read.owner == CopyOwnerRelation::Unrelated,
    ensures
        on_read_spec(mark, s, Ok(read)).phase == (PollPhase::Restore {
            outcome: PollOutcome::Failed(CONTEXT_CHANGED@),
        }),
        on_restored_spec(target, on_read_spec(mark, s, Ok(read)), restored).phase == (PollPhase::Done {
            result: CaptureResult::Failed(merged_error(CONTEXT_CHANGED@, restored)),
        }),
{
}

/// A copy that never arrives is no error: the capture ends with no text, in the original
/// field, after the clipboard was put back.
pub proof fn law_timeout_is_an_empty_capture(target: InputContext, s: PollState, restored: Result<(), String>)
    requires
        is_polling(s.phase),
    ensures
        on_restored_spec(target, on_waited_spec(s, false), restored).phase == (PollPhase::Done {
            result: CaptureResult::Captured { text: None, context: target, replaced: false },
        }),
        on_restored_spec(target, on_budget_spent_spec(s), restored).phase == (PollPhase::Done {
            result: CaptureResult::Captured { text: None, context: target, replaced: false },
        }),
{
}

/// The clipboard is given back on every outcome: while polling, each report either keeps
/// polling or asks for the restore; no report ends the capture directly.
pub proof fn law_polling_ends_in_restore(
    target: InputContext,
    mark: Seq<char>,
    marker_sequence: u32,
    s: PollState,
    observed: Result<CopyObservation, String>,
    read: Result<ClipboardTextObservation, String>,
    keep_polling: bool,
)
    requires
        is_polling(s.phase),
    ensures
        ({
            let n = on_observed_spec(target, marker_sequence, s, observed);
            is_polling(n.phase) || n.phase is Restore
        }),
        ({
            let n = on_read_spec(mark, s, read);
            is_polling(n.phase) || n.phase is Restore
        }),
        ({
            let n = on_waited_spec(s, keep_polling);
            is_polling(n.phase) || n.phase is Restore
        }),
        on_budget_spent_spec(s).phase is Restore,
{
}

} // verus!
