//! The decisions of the terminal front end that need no terminal: what the
//! event loop sends for each thing that happens, how long a stop waits for
//! the loop to end, and how an area is centred.

use crate::message::Message;
use vstd::prelude::*;

verus! {

/// Milliseconds a stop waits before it aborts the event loop.
pub const ABORT_AFTER_MS: u32 = 50;

/// Milliseconds after which a stop no longer waits for the event loop.
pub const GIVE_UP_AFTER_MS: u32 = 100;

/// One thing that happens to the event loop.
#[derive(Debug, PartialEq, Eq)]
pub enum LoopEvent {
    /// The loop has just started.
    Started,
    /// The loop was asked to end.
    Cancelled,
    /// The terminal reported something.
    Input(Message),
    /// Reading from the terminal failed.
    InputFailed,
    /// The terminal has nothing more to report.
    InputClosed,
    /// A tick is due.
    TickDue,
    /// A redraw is due.
    RenderDue,
}

/// What the event loop does next.
#[derive(Debug, PartialEq, Eq)]
pub enum LoopStep {
    /// Send this message to the application and go on.
    Send(Message),
    /// Go on without sending anything.
    Skip,
    /// Leave the loop.
    Stop,
}

/// What a stop does after it has waited for some time.
#[derive(Clone, Copy, Debug, PartialEq, Eq, Structural, Hash)]
pub struct StopStep {
    /// Abort the event loop's task.
    pub abort: bool,
    /// Stop waiting, whether the task has ended or not.
    pub give_up: bool,
}

/// The step of the event loop for each event.
pub open spec fn step_for(event: LoopEvent) -> LoopStep {
    match event {
        LoopEvent::Started => LoopStep::Send(Message::Init),
        LoopEvent::Cancelled => LoopStep::Stop,
        LoopEvent::Input(message) => LoopStep::Send(message),
        LoopEvent::InputFailed => LoopStep::Send(Message::Error),
        LoopEvent::InputClosed => LoopStep::Skip,
        LoopEvent::TickDue => LoopStep::Send(Message::Tick),
        LoopEvent::RenderDue => LoopStep::Send(Message::Render),
    }
}

/// Decides what the event loop does for an event.
pub fn loop_step(event: LoopEvent) -> (out: LoopStep)
    ensures
        out == step_for(event),
{
    match event {
        LoopEvent::Started => LoopStep::Send(Message::Init),
        LoopEvent::Cancelled => LoopStep::Stop,
        LoopEvent::Input(message) => LoopStep::Send(message),
        LoopEvent::InputFailed => LoopStep::Send(Message::Error),
        LoopEvent::InputClosed => LoopStep::Skip,
        LoopEvent::TickDue => LoopStep::Send(Message::Tick),
        LoopEvent::RenderDue => LoopStep::Send(Message::Render),
    }
}

/// Decides what a stop does once it has waited `waited_ms` milliseconds for
/// the event loop to end: past `ABORT_AFTER_MS` the task is aborted, past
/// `GIVE_UP_AFTER_MS` the stop waits no longer.
pub fn stop_step(waited_ms: u32) -> (out: StopStep)
    ensures
        out.abort == (waited_ms > ABORT_AFTER_MS),
        out.give_up == (waited_ms > GIVE_UP_AFTER_MS),
{
    StopStep { abort: waited_ms > ABORT_AFTER_MS, give_up: waited_ms > GIVE_UP_AFTER_MS }
}

/// The shares, in percent, into which a length is split to centre a part
/// of `percent` percent: a margin, the part, and a margin as wide as the
/// first.
pub fn centering_percentages(percent: u16) -> (out: (u16, u16, u16))
    requires
        percent <= 100,
    ensures
        out.0 == (100 - percent) / 2,
        out.1 == percent,
        out.2 == (100 - percent) / 2,
{
    let margin = (100 - percent) / 2;
    (margin, percent, margin)
}

} // verus!
