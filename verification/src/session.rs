//! The session state machine: one coordinator for capture, transcription
//! and injection.
//!
//! The machine is a pure function from state and event to next state and
//! action.  The surrounding runtime performs each action — allocating a
//! fresh liveness flag and channel, clearing the flag, calling the
//! collaborators — and hands the outcome back as the next event.  Every
//! failure path returns to `Idle`; nothing is retried.

use vstd::prelude::*;
use vstd::string::StrSliceExecFns;
use vstd::string::StringExecFns;

use crate::hotkey::InputSignal;
use crate::resample::{chunk_views, concat_chunks};

verus! {

/// The four phases of one dictation cycle.
#[derive(Debug, Clone, Copy, PartialEq, Eq, Structural)]
pub enum State {
    /// Waiting for the hotkey; minimal resource usage.
    Idle,
    /// Microphone active, chunks accumulating in the session buffer.
    Recording,
    /// Capture stopped, buffer final, transcription in flight.
    Processing,
    /// Transcribed text handed to the injection collaborator.
    Injecting,
}

impl State {
    /// Upper-case display label of the state.
    pub fn label(&self) -> (r: &'static str)
        ensures
            *self is Idle ==> r@ == "IDLE"@,
            *self is Recording ==> r@ == "RECORDING"@,
            *self is Processing ==> r@ == "PROCESSING"@,
            *self is Injecting ==> r@ == "INJECTING"@,
    {
        match self {
            State::Idle => "IDLE",
            State::Recording => "RECORDING",
            State::Processing => "PROCESSING",
            State::Injecting => "INJECTING",
        }
    }
}

/// Everything the state machine can observe.
#[derive(Debug)]
pub enum Event {
    /// A hotkey edge from the signal source.
    Signal(InputSignal),
    /// The signal source terminated: fatal-adjacent, the daemon parks.
    SignalClosed,
    /// The capture driver failed to start; no session was ever live.
    CaptureStartFailed,
    /// A chunk of mono target-rate samples arrived from the capture thread.
    Chunk(Vec<i16>),
    /// The audio channel closed early: treated as a non-fatal stop.
    ChunkClosed,
    /// The transcription collaborator returned text.
    TranscriptionOk(String),
    /// The transcription round-trip failed; a transport error and a
    /// timeout are treated identically.
    TranscriptionFailed,
    /// The injection collaborator finished successfully.
    InjectionOk,
    /// The injection collaborator failed; never fatal.
    InjectionFailed,
}

/// What the runtime must do after a step.
#[derive(Debug)]
pub enum Action {
    /// Nothing; keep feeding events.
    Stay,
    /// Allocate a fresh liveness flag and chunk channel and start capture.
    StartCapture,
    /// Clear the liveness flag, drain the channel without blocking, then
    /// call [`Session::finalize`] with whatever was still buffered.
    FinishCapture,
    /// Clear the liveness flag and abandon the session.
    StopCapture,
    /// The signal source is gone: park forever instead of busy-looping.
    Park,
    /// Hand the finalized recording to the transcription collaborator.
    Transcribe(Vec<i16>),
    /// Hand the text to the injection collaborator, off this context.
    Inject(String),
}

/// The state reached from `st` on `ev`.
pub open spec fn step_state(st: State, ev: Event) -> State {
    match st {
        State::Idle => match ev {
            Event::Signal(InputSignal::Start) => State::Recording,
            _ => State::Idle,
        },
        State::Recording => match ev {
            Event::Signal(InputSignal::Stop) => State::Processing,
            Event::ChunkClosed => State::Processing,
            Event::SignalClosed => State::Idle,
            Event::CaptureStartFailed => State::Idle,
            _ => State::Recording,
        },
        State::Processing => match ev {
            Event::TranscriptionOk(text) => if text@.len() == 0 {
                State::Idle
            } else {
                State::Injecting
            },
            Event::TranscriptionFailed => State::Idle,
            _ => State::Processing,
        },
        State::Injecting => match ev {
            Event::InjectionOk => State::Idle,
            Event::InjectionFailed => State::Idle,
            _ => State::Injecting,
        },
    }
}

/// The session buffer after `step`: chunks append in Recording, a fresh
/// session starts empty, and every path that leaves the session drops it.
pub open spec fn step_buffer(st: State, buf: Seq<i16>, ev: Event) -> Seq<i16> {
    match st {
        State::Idle => match ev {
            Event::Signal(InputSignal::Start) => Seq::empty(),
            _ => buf,
        },
        State::Recording => match ev {
            Event::Chunk(c) => buf + c@,
            Event::SignalClosed => Seq::empty(),
            Event::CaptureStartFailed => Seq::empty(),
            _ => buf,
        },
        State::Processing => match ev {
            Event::TranscriptionOk(_) => Seq::empty(),
            Event::TranscriptionFailed => Seq::empty(),
            _ => buf,
        },
        State::Injecting => buf,
    }
}

/// Whether a session is live after the hand-off decision on `total`.
pub open spec fn finalize_state(total: Seq<i16>) -> State {
    if total.len() == 0 {
        State::Idle
    } else {
        State::Processing
    }
}

/// One dictation session cycle: the current phase and the recording
/// buffer collected so far (the Collector's accumulator).
pub struct Session {
    state: State,
    buffer: Vec<i16>,
}

impl Session {
    /// The machine never holds a stale buffer outside a live session.
    pub closed spec fn wf(&self) -> bool {
        (self.state is Idle || self.state is Injecting) ==> self.buffer@.len() == 0
    }

    pub closed spec fn state(&self) -> State {
        self.state
    }

    /// The mono samples collected for the current session, in arrival order.
    pub closed spec fn buffer_view(&self) -> Seq<i16> {
        self.buffer@
    }

    pub fn new() -> (m: Session)
        ensures
            m.wf(),
            m.state() == State::Idle,
            m.buffer_view() =~= Seq::<i16>::empty(),
    {
        Session { state: State::Idle, buffer: Vec::new() }
    }

    /// Current phase, for observation from outside the machine.
    pub fn current_state(&self) -> (s: State)
        ensures
            s == self.state(),
    {
        self.state
    }

    /// Number of samples collected so far.
    pub fn buffered_len(&self) -> (n: usize)
        ensures
            n == self.buffer_view().len(),
    {
        self.buffer.len()
    }

    /// Advance the machine by one observed event.
    ///
    /// The action characterization doubles as the idempotence law: capture
    /// is started exactly on a Start edge seen in `Idle`, so a duplicate
    /// Start edge while already `Recording` changes nothing and starts no
    /// second capture.
    pub fn step(&mut self, event: Event) -> (a: Action)
        requires
            old(self).wf(),
        ensures
            final(self).wf(),
            final(self).state() == step_state(old(self).state(), event),
            final(self).buffer_view() =~= step_buffer(
                old(self).state(),
                old(self).buffer_view(),
                event,
            ),
            a is StartCapture <==> (old(self).state() is Idle && event matches Event::Signal(
                InputSignal::Start,
            )),
            a is FinishCapture <==> (old(self).state() is Recording && (event matches Event::Signal(
                InputSignal::Stop,
            ) || event is ChunkClosed)),
            a is StopCapture <==> (old(self).state() is Recording && event is SignalClosed),
            a is Park <==> (old(self).state() is Idle && event is SignalClosed),
            a is Inject <==> (old(self).state() is Processing && (event matches
                Event::TranscriptionOk(t) && t@.len() > 0)),
            a is Inject ==> (event matches Event::TranscriptionOk(t) && a->Inject_0@ == t@),
            !(a is Transcribe),
    {
        match self.state {
            State::Idle => match event {
                Event::Signal(InputSignal::Start) => {
                    self.state = State::Recording;
                    self.buffer = Vec::new();
                    Action::StartCapture
                },
                Event::SignalClosed => Action::Park,
                _ => Action::Stay,
            },
            State::Recording => match event {
                Event::Signal(InputSignal::Start) => Action::Stay,
                Event::Signal(InputSignal::Stop) => {
                    self.state = State::Processing;
                    Action::FinishCapture
                },
                Event::ChunkClosed => {
                    self.state = State::Processing;
                    Action::FinishCapture
                },
                Event::SignalClosed => {
                    self.state = State::Idle;
                    self.buffer = Vec::new();
                    Action::StopCapture
                },
                Event::CaptureStartFailed => {
                    self.state = State::Idle;
                    self.buffer = Vec::new();
                    Action::Stay
                },
                Event::Chunk(mut c) => {
                    self.buffer.append(&mut c);
                    Action::Stay
                },
                _ => Action::Stay,
            },
            State::Processing => match event {
                Event::TranscriptionOk(text) => {
                    if text.as_str().is_empty() {
                        self.state = State::Idle;
                        self.buffer = Vec::new();
                        Action::Stay
                    } else {
                        self.state = State::Injecting;
                        self.buffer = Vec::new();
                        Action::Inject(text)
                    }
                },
                Event::TranscriptionFailed => {
                    self.state = State::Idle;
                    self.buffer = Vec::new();
                    Action::Stay
                },
                _ => Action::Stay,
            },
            State::Injecting => match event {
                Event::InjectionOk => {
                    self.state = State::Idle;
                    Action::Stay
                },
                Event::InjectionFailed => {
                    self.state = State::Idle;
                    Action::Stay
                },
                _ => Action::Stay,
            },
        }
    }

    /// Close the collection phase: absorb the chunks still buffered in the
    /// channel after the stop decision, in order, and decide the hand-off.
    ///
    /// This is the Collector's completeness guarantee: the finalized buffer
    /// is exactly the concatenation of everything collected, nothing lost,
    /// nothing reordered.  An empty recording skips transcription and the
    /// cycle ends in `Idle`.
    pub fn finalize(&mut self, remaining: Vec<Vec<i16>>) -> (a: Action)
        requires
            old(self).wf(),
            old(self).state() == State::Processing,
        ensures
            final(self).wf(),
            final(self).buffer_view() =~= Seq::<i16>::empty(),
            final(self).state() == finalize_state(
                old(self).buffer_view() + concat_chunks(chunk_views(remaining@)),
            ),
            (old(self).buffer_view() + concat_chunks(chunk_views(remaining@))).len() == 0 ==> a
                is Stay,
            (old(self).buffer_view() + concat_chunks(chunk_views(remaining@))).len() > 0 ==> (a
                matches Action::Transcribe(b) && b@ =~= old(self).buffer_view() + concat_chunks(
                chunk_views(remaining@),
            )),
    {
        let ghost orig = remaining@;
        let ghost buf0 = self.buffer@;
        let mut rest: Vec<Vec<i16>> = remaining;
        while rest.len() > 0
            invariant
                self.state == State::Processing,
                self.buffer@ + concat_chunks(chunk_views(rest@)) =~= buf0 + concat_chunks(
                    chunk_views(orig),
                ),
            decreases rest@.len(),
        {
            let ghost rb = rest@;
            let mut head: Vec<i16> = rest.remove(0);
            proof {
                assert(head@ == rb[0]@);
                assert(rest@ =~= rb.drop_first());
                assert(chunk_views(rest@) =~= chunk_views(rb).drop_first());
                assert(concat_chunks(chunk_views(rb)) =~= chunk_views(rb)[0] + concat_chunks(
                    chunk_views(rb).drop_first(),
                ));
            }
            self.buffer.append(&mut head);
        }
        proof {
            assert(concat_chunks(chunk_views(rest@)) =~= Seq::<i16>::empty());
            assert(self.buffer@ =~= buf0 + concat_chunks(chunk_views(orig)));
        }
        if self.buffer.len() == 0 {
            self.state = State::Idle;
            Action::Stay
        } else {
            let mut buf: Vec<i16> = Vec::new();
            core::mem::swap(&mut self.buffer, &mut buf);
            Action::Transcribe(buf)
        }
    }
}

/// Law: total recovery.  Each failure mode — empty recording, transcription
/// timeout, transcription transport error (both reported as
/// `TranscriptionFailed`), empty transcription result, injection failure —
/// ends the cycle in `Idle`, and from `Idle` the next Start edge is
/// accepted into a fresh `Recording` session.
pub proof fn lemma_total_recovery(empty_text: String)
    requires
        empty_text@.len() == 0,
    ensures
        finalize_state(Seq::<i16>::empty()) == State::Idle,
        step_state(State::Recording, Event::CaptureStartFailed) == State::Idle,
        step_state(State::Processing, Event::TranscriptionFailed) == State::Idle,
        step_state(State::Processing, Event::TranscriptionOk(empty_text)) == State::Idle,
        step_state(State::Injecting, Event::InjectionFailed) == State::Idle,
        forall|sig: InputSignal| sig == InputSignal::Start ==> step_state(
            State::Idle,
            Event::Signal(sig),
        ) == State::Recording,
{
}

/// Truncate a string to at most `max_len` characters for log display,
/// marking a cut with an ellipsis.
pub fn truncate(s: &str, max_len: usize) -> (r: String)
    ensures
        s@.len() <= max_len ==> r@ == s@,
        s@.len() > max_len ==> r@ == s@.subrange(0, max_len as int) + "…"@,
{
    let n: usize = s.unicode_len();
    if n <= max_len {
        s.to_owned()
    } else {
        let head: &str = s.substring_char(0, max_len);
        let mut out: String = head.to_owned();
        out.append("…");
        out
    }
}

} // verus!
