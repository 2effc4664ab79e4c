//! What is sent to a model and what comes back. Talking to the model (the
//! HTTP adapter, the scripted fake) is done by the application.

use vstd::prelude::*;

use crate::domain::{Decision, Message};
use crate::tool::ToolSchema;

verus! {

/// One request to the model.
#[derive(Debug)]
pub struct ModelRequest {
    /// The system prompt (may be empty; the session's system message is used).
    pub system: String,
    /// The conversation so far.
    pub messages: Vec<Message>,
    /// The tools the model may call.
    pub tool_schemas: Vec<ToolSchema>,
}

impl ModelRequest {
    /// A request with no tools.
    pub fn new(system: String, messages: Vec<Message>) -> (r: Self)
        ensures
            r.system == system,
            r.messages == messages,
            r.tool_schemas@.len() == 0,
    {
        ModelRequest { system, messages, tool_schemas: Vec::new() }
    }

    /// The same request offering `schemas`.
    pub fn with_tool_schemas(self, schemas: Vec<ToolSchema>) -> (r: Self)
        ensures
            r.system == self.system,
            r.messages == self.messages,
            r.tool_schemas == schemas,
    {
        ModelRequest { tool_schemas: schemas, ..self }
    }
}

/// The model's answer.
#[derive(Debug)]
pub struct ModelResponse {
    /// The decision.
    pub decision: Decision,
    /// The raw text, for the record.
    pub raw: String,
}

/// One event of a streamed answer.
#[derive(Debug)]
pub enum StreamEvent {
    /// A piece of text.
    Delta(String),
    /// The complete answer.
    Complete(ModelResponse),
}

/// A streamed answer, as its events in order.
#[derive(Debug)]
pub struct ModelStream {
    events: Vec<StreamEvent>,
}

impl ModelStream {
    /// The events, in order.
    pub closed spec fn events(self) -> Seq<StreamEvent> {
        self.events@
    }

    /// The stream of an answer that came whole: one `Complete` event.
    pub fn from_response(resp: ModelResponse) -> (s: Self)
        ensures
            s.events() == seq![StreamEvent::Complete(resp)],
    {
        let mut events: Vec<StreamEvent> = Vec::new();
        events.push(StreamEvent::Complete(resp));
        ModelStream { events }
    }

    /// The events, in order.
    pub fn into_events(self) -> (r: Vec<StreamEvent>)
        ensures
            r@ == self.events(),
    {
        self.events
    }

    /// Whether there are no events.
    pub fn is_empty(&self) -> (b: bool)
        ensures
            b == (self.events().len() == 0),
    {
        self.events.len() == 0
    }

    /// The number of events.
    pub fn len(&self) -> (n: usize)
        ensures
            n == self.events().len(),
    {
        self.events.len()
    }
}

} // verus!
