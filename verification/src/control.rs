//! The control loop as an explicit state machine. Each cycle runs
//! Sampling, then Rendering (graphical mode) or TextOutput (text mode),
//! then InputCheck (graphical mode only), then Sleeping, and back to
//! Sampling. Stopped is terminal: it is entered on a quit key, on a fatal
//! sampling failure, or on a render/input error, and entering it obliges
//! the runner to perform terminal teardown — which therefore happens at
//! most once per run.
//!
//! The runner performs the blocking work (sample, draw, print, poll,
//! sleep) outside the library and reports what happened as a `LoopEvent`;
//! this module decides every transition.

use vstd::prelude::*;

verus! {

/// The states of the control loop.
#[derive(Clone, Copy, Debug, PartialEq, Eq, Structural)]
pub enum Phase {
    /// Acquiring one metric snapshot and folding it into the series.
    Sampling,
    /// Drawing the charts (graphical mode).
    Rendering,
    /// Printing the plain-text lines (text mode).
    TextOutput,
    /// Polling for a quit key within a bounded window (graphical mode).
    InputCheck,
    /// Waiting out the refresh interval.
    Sleeping,
    /// Terminal state; teardown runs on entry and the loop ends.
    Stopped,
}

/// What the runner observed while doing the current phase's work.
#[derive(Clone, Copy, Debug, PartialEq, Eq, Structural)]
pub enum LoopEvent {
    /// A snapshot was acquired and recorded.
    SampleOk,
    /// The metric provider failed; fatal, since sampling is the program's
    /// sole purpose.
    SampleFailed,
    /// The frame was drawn.
    DrawOk,
    /// Drawing or the terminal failed; fatal.
    DrawFailed,
    /// The text lines were printed.
    PrintDone,
    /// The quit key was observed within the poll window.
    QuitKey,
    /// No input arrived within the poll window.
    NoInput,
    /// Polling or reading input failed; fatal.
    InputFailed,
    /// The refresh interval elapsed.
    SleepDone,
}

/// The blocking work the runner must perform while in a phase; `None` once
/// the loop has stopped.
#[derive(Clone, Copy, Debug, PartialEq, Eq, Structural)]
pub enum LoopAction {
    /// Acquire and record one metric snapshot.
    Sample,
    /// Draw the charts from the current series.
    Draw,
    /// Print the text-mode lines for the current samples.
    PrintText,
    /// Poll for the quit key within a bounded window.
    PollInput,
    /// Sleep for the refresh interval.
    Sleep,
}

/// The transition relation of the loop. An event that does not belong to
/// the current phase changes nothing; Stopped absorbs every event.
pub open spec fn spec_step(phase: Phase, event: LoopEvent, graphical: bool) -> Phase {
    match (phase, event) {
        (Phase::Sampling, LoopEvent::SampleOk) => if graphical {
            Phase::Rendering
        } else {
            Phase::TextOutput
        },
        (Phase::Sampling, LoopEvent::SampleFailed) => Phase::Stopped,
        (Phase::Rendering, LoopEvent::DrawOk) => Phase::InputCheck,
        (Phase::Rendering, LoopEvent::DrawFailed) => Phase::Stopped,
        (Phase::TextOutput, LoopEvent::PrintDone) => Phase::Sleeping,
        (Phase::InputCheck, LoopEvent::QuitKey) => Phase::Stopped,
        (Phase::InputCheck, LoopEvent::NoInput) => Phase::Sleeping,
        (Phase::InputCheck, LoopEvent::InputFailed) => Phase::Stopped,
        (Phase::Sleeping, LoopEvent::SleepDone) => Phase::Sampling,
        _ => phase,
    }
}

/// Takes one transition of the loop.
pub fn step(phase: Phase, event: LoopEvent, graphical: bool) -> (next: Phase)
    ensures
        next == spec_step(phase, event, graphical),
{
    match (phase, event) {
        (Phase::Sampling, LoopEvent::SampleOk) => if graphical {
            Phase::Rendering
        } else {
            Phase::TextOutput
        },
        (Phase::Sampling, LoopEvent::SampleFailed) => Phase::Stopped,
        (Phase::Rendering, LoopEvent::DrawOk) => Phase::InputCheck,
        (Phase::Rendering, LoopEvent::DrawFailed) => Phase::Stopped,
        (Phase::TextOutput, LoopEvent::PrintDone) => Phase::Sleeping,
        (Phase::InputCheck, LoopEvent::QuitKey) => Phase::Stopped,
        (Phase::InputCheck, LoopEvent::NoInput) => Phase::Sleeping,
        (Phase::InputCheck, LoopEvent::InputFailed) => Phase::Stopped,
        (Phase::Sleeping, LoopEvent::SleepDone) => Phase::Sampling,
        _ => phase,
    }
}

/// The work owed in a phase: sampling, drawing or printing, polling,
/// sleeping — or nothing once stopped.
pub fn next_action(phase: Phase) -> (action: Option<LoopAction>)
    ensures
        action == match phase {
            Phase::Sampling => Some(LoopAction::Sample),
            Phase::Rendering => Some(LoopAction::Draw),
            Phase::TextOutput => Some(LoopAction::PrintText),
            Phase::InputCheck => Some(LoopAction::PollInput),
            Phase::Sleeping => Some(LoopAction::Sleep),
            Phase::Stopped => None::<LoopAction>,
        },
{
    match phase {
        Phase::Sampling => Some(LoopAction::Sample),
        Phase::Rendering => Some(LoopAction::Draw),
        Phase::TextOutput => Some(LoopAction::PrintText),
        Phase::InputCheck => Some(LoopAction::PollInput),
        Phase::Sleeping => Some(LoopAction::Sleep),
        Phase::Stopped => None,
    }
}

/// Whether an event reports a fatal failure: one that stops the loop as an
/// error, as opposed to the quit key's orderly stop.
pub open spec fn spec_event_is_fatal(event: LoopEvent) -> bool {
    match event {
        LoopEvent::SampleFailed | LoopEvent::DrawFailed | LoopEvent::InputFailed => true,
        _ => false,
    }
}

/// Whether an event reports a fatal failure (decides the exit status).
pub fn event_is_fatal(event: LoopEvent) -> (fatal: bool)
    ensures
        fatal == spec_event_is_fatal(event),
{
    match event {
        LoopEvent::SampleFailed | LoopEvent::DrawFailed | LoopEvent::InputFailed => true,
        _ => false,
    }
}

/// The phase reached from `phase` after consuming `events` in order.
pub open spec fn run(phase: Phase, events: Seq<LoopEvent>, graphical: bool) -> Phase
    decreases events.len(),
{
    if events.len() == 0 {
        phase
    } else {
        run(spec_step(phase, events[0], graphical), events.drop_first(), graphical)
    }
}

/// How many transitions of the run enter Stopped from a running phase —
/// that is, how many times teardown is owed.
pub open spec fn stop_entries(phase: Phase, events: Seq<LoopEvent>, graphical: bool) -> nat
    decreases events.len(),
{
    if events.len() == 0 {
        0
    } else {
        let next = spec_step(phase, events[0], graphical);
        (if phase != Phase::Stopped && next == Phase::Stopped {
            1 as nat
        } else {
            0 as nat
        }) + stop_entries(next, events.drop_first(), graphical)
    }
}

/// Within a cycle, the output consumes what sampling just produced:
/// Rendering and TextOutput are only ever entered from Sampling, on a
/// successful sample, in their respective display modes.
pub proof fn lemma_output_follows_sampling(phase: Phase, event: LoopEvent, graphical: bool)
    ensures
        spec_step(phase, event, graphical) == Phase::Rendering && phase != Phase::Rendering
            ==> phase == Phase::Sampling && event == LoopEvent::SampleOk && graphical,
        spec_step(phase, event, graphical) == Phase::TextOutput && phase != Phase::TextOutput
            ==> phase == Phase::Sampling && event == LoopEvent::SampleOk && !graphical,
{
}

/// Stopped is terminal: no event sequence leaves it, and no further
/// teardown is ever owed.
pub proof fn lemma_stopped_is_terminal(events: Seq<LoopEvent>, graphical: bool)
    ensures
        run(Phase::Stopped, events, graphical) == Phase::Stopped,
        stop_entries(Phase::Stopped, events, graphical) == 0,
    decreases events.len(),
{
    if events.len() > 0 {
        lemma_stopped_is_terminal(events.drop_first(), graphical);
    }
}

/// Teardown runs exactly once when a run stops and never otherwise: over
/// any event sequence from a running phase, Stopped is entered at most
/// once, and exactly once precisely when the run ends stopped.
pub proof fn lemma_teardown_exactly_once(phase: Phase, events: Seq<LoopEvent>, graphical: bool)
    requires
        phase != Phase::Stopped,
    ensures
        stop_entries(phase, events, graphical) <= 1,
        stop_entries(phase, events, graphical) == 1 <==> run(phase, events, graphical)
            == Phase::Stopped,
    decreases events.len(),
{
    if events.len() > 0 {
        let next = spec_step(phase, events[0], graphical);
        if next == Phase::Stopped {
            lemma_stopped_is_terminal(events.drop_first(), graphical);
        } else {
            lemma_teardown_exactly_once(next, events.drop_first(), graphical);
        }
    }
}

} // verus!
