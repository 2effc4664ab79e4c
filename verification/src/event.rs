//! Runtime events of the agent and event sinks.
//!
//! Events are plain data for display, logs and tests; a sink may be a
//! terminal, a JSON writer or, in tests, a `Vec`.

use vstd::prelude::*;

use crate::state::StopReason;

verus! {

/// Every event a loop can produce.
#[derive(Debug)]
pub enum AgentEvent {
    /// The task started.
    Started { task: String },
    /// Context was collected.
    ContextCollected { files: usize, bytes: u64 },
    /// The model was asked once.
    ModelRequested,
    /// A tool started.
    ToolStarted { name: String },
    /// A tool finished.
    ToolFinished { name: String, success: bool },
    /// Verification finished.
    VerificationFinished { success: bool },
    /// The task completed.
    Completed { summary: String },
    /// The task failed.
    Failed { error: String },
    /// The agent stopped.
    Stopped { reason: StopReason },
}

/// Receives events. Sinks should not block and should handle their own
/// output errors.
pub trait EventSink {
    /// Dispatches one event.
    fn emit(&mut self, event: AgentEvent);
}

/// A sink that collects the events, for tests and scripts.
#[derive(Debug)]
pub struct VecEventSink {
    events: Vec<AgentEvent>,
}

impl VecEventSink {
    /// The events collected so far, in order.
    pub closed spec fn collected(self) -> Seq<AgentEvent> {
        self.events@
    }

    /// An empty sink.
    pub fn new() -> (s: Self)
        ensures
            s.collected() == Seq::<AgentEvent>::empty(),
    {
        VecEventSink { events: Vec::new() }
    }

    /// The events collected so far.
    pub fn events(&self) -> (e: &[AgentEvent])
        ensures
            e@ == self.collected(),
    {
        self.events.as_slice()
    }

    /// The events collected, by value.
    pub fn into_events(self) -> (e: Vec<AgentEvent>)
        ensures
            e@ == self.collected(),
    {
        self.events
    }

    /// Appends an event (what `emit` does).
    pub fn push_event(&mut self, event: AgentEvent)
        ensures
            final(self).collected() == old(self).collected().push(event),
    {
        self.events.push(event);
    }
}

impl Default for VecEventSink {
    fn default() -> (s: Self)
        ensures
            s.collected() == Seq::<AgentEvent>::empty(),
    {
        VecEventSink::new()
    }
}

impl EventSink for VecEventSink {
    /// Appends the event to the ones collected.
    fn emit(&mut self, event: AgentEvent)
        ensures
            final(self).collected() == old(self).collected().push(event),
    {
        self.push_event(event);
    }
}

} // verus!
