//! Domain types: task requests, messages, decisions, tool calls, child agents.
//!
//! These types perform no I/O. Their invariants are kept by constructors and
//! `validate` methods.

use vstd::prelude::*;

use crate::clock::now_unix_nanos;
use crate::error::AgentError;
use crate::path::{is_absolute, path_is_absolute};
use crate::text::{decimal, is_blank, push_decimal, trim};

verus! {

/// A JSON value, carried through unread.
#[verifier::external_type_specification]
#[verifier::external_body]
pub struct ExJsonValue(serde_json::Value);

/// Clones a JSON value (`serde_json::Value::clone`); the clone is the same value.
#[verifier::external_body]
fn clone_json(v: &serde_json::Value) -> (r: serde_json::Value)
    ensures
        r == *v,
{
    v.clone()
}

/// The empty JSON object `{}` (`serde_json::Value::Object(Map::new())`).
#[verifier::external_body]
pub(crate) fn empty_json_object() -> serde_json::Value {
    serde_json::Value::Object(serde_json::Map::new())
}

/// A task submitted by the user.
#[derive(Debug, Clone, PartialEq, Eq)]
pub struct TaskRequest {
    /// The instruction in natural language; must not be blank.
    pub instruction: String,
    /// The absolute workspace path.
    pub workspace: String,
    /// The most loop turns; must be positive.
    pub max_turns: u32,
    /// How many levels of child tasks may still be nested below this one;
    /// 0 allows none.
    pub max_depth: u32,
}

/// Why a task request is refused, if it is: the first failing rule, in order.
pub open spec fn task_refusal(
    instruction: Seq<char>,
    workspace: Seq<char>,
    max_turns: u32,
) -> Option<Seq<char>> {
    if trim(instruction).len() == 0 {
        Some("instruction must not be empty"@)
    } else if max_turns == 0 {
        Some("max_turns must be greater than zero"@)
    } else if !is_absolute(workspace) {
        Some("workspace must be an absolute path"@)
    } else {
        None
    }
}

/// The outcome of a check that fails with `InvalidRequest(reason)` when a
/// reason is given.
pub open spec fn invalid_request_outcome(r: Result<(), AgentError>, refusal: Option<Seq<char>>) -> bool {
    match refusal {
        None => r is Ok,
        Some(m) => r matches Err(AgentError::InvalidRequest(x)) && x@ == m,
    }
}

impl TaskRequest {
    /// A task with the default nesting depth of 2.
    pub fn new(instruction: String, workspace: String, max_turns: u32) -> (r: Result<
        Self,
        AgentError,
    >)
        ensures
            match task_refusal(instruction@, workspace@, max_turns) {
                None => r matches Ok(t) && t.instruction == instruction && t.workspace == workspace
                    && t.max_turns == max_turns && t.max_depth == 2,
                Some(m) => r matches Err(AgentError::InvalidRequest(x)) && x@ == m,
            },
    {
        Self::new_with_depth(instruction, workspace, max_turns, 2)
    }

    /// A task with the given nesting depth; refused as `validate` says.
    pub fn new_with_depth(
        instruction: String,
        workspace: String,
        max_turns: u32,
        max_depth: u32,
    ) -> (r: Result<Self, AgentError>)
        ensures
            match task_refusal(instruction@, workspace@, max_turns) {
                None => r matches Ok(t) && t.instruction == instruction && t.workspace == workspace
                    && t.max_turns == max_turns && t.max_depth == max_depth,
                Some(m) => r matches Err(AgentError::InvalidRequest(x)) && x@ == m,
            },
    {
        let request = TaskRequest { instruction, workspace, max_turns, max_depth };
        match request.validate() {
            Ok(()) => Ok(request),
            Err(e) => Err(e),
        }
    }

    /// Checks the request: the instruction is not blank, the turn limit is
    /// positive, and the workspace is absolute, in that order. Any depth is
    /// valid (0 allows no further sub-agent).
    pub fn validate(&self) -> (r: Result<(), AgentError>)
        ensures
            invalid_request_outcome(
                r,
                task_refusal(self.instruction@, self.workspace@, self.max_turns),
            ),
    {
        if is_blank(self.instruction.as_str()) {
            return Err(AgentError::InvalidRequest(String::from_str("instruction must not be empty")));
        }
        if self.max_turns == 0 {
            return Err(
                AgentError::InvalidRequest(String::from_str("max_turns must be greater than zero")),
            );
        }
        if !path_is_absolute(self.workspace.as_str()) {
            return Err(
                AgentError::InvalidRequest(String::from_str("workspace must be an absolute path")),
            );
        }
        Ok(())
    }
}

/// Tool arguments: a JSON value.
#[derive(Debug)]
pub struct ToolArgument(serde_json::Value);

impl ToolArgument {
    /// The JSON value held.
    pub closed spec fn value(self) -> serde_json::Value {
        self.0
    }

    /// Arguments holding `value`.
    pub fn new(value: serde_json::Value) -> (a: Self)
        ensures
            a.value() == value,
    {
        ToolArgument(value)
    }

    /// The empty object `{}`.
    pub fn empty() -> Self {
        ToolArgument(empty_json_object())
    }

    /// The JSON value held.
    pub fn as_value(&self) -> (v: &serde_json::Value)
        ensures
            *v == self.value(),
    {
        &self.0
    }

    /// The JSON value held, by value.
    pub fn into_value(self) -> (v: serde_json::Value)
        ensures
            v == self.value(),
    {
        self.0
    }

    /// A copy equal to this one.
    pub fn duplicate(&self) -> (r: Self)
        ensures
            r == *self,
    {
        ToolArgument(clone_json(&self.0))
    }
}

/// One tool call.
#[derive(Debug)]
pub struct ToolCall {
    /// A unique id, echoed in `Message::Tool`.
    pub id: String,
    /// The registered tool name.
    pub name: String,
    /// The arguments.
    pub arguments: ToolArgument,
}

/// Why a tool call is refused, if it is.
pub open spec fn call_refusal(id: Seq<char>, name: Seq<char>) -> Option<Seq<char>> {
    if trim(id).len() == 0 {
        Some("tool call id must not be empty"@)
    } else if trim(name).len() == 0 {
        Some("tool call name must not be empty"@)
    } else {
        None
    }
}

/// The outcome of a check that fails with `UnparseableDecision(reason)` when a
/// reason is given.
pub open spec fn unparseable_outcome(r: Result<(), AgentError>, refusal: Option<Seq<char>>) -> bool {
    match refusal {
        None => r is Ok,
        Some(m) => r matches Err(AgentError::UnparseableDecision(x)) && x@ == m,
    }
}

impl ToolCall {
    /// A checked tool call: id and name must not be blank.
    pub fn new(id: String, name: String, arguments: ToolArgument) -> (r: Result<Self, AgentError>)
        ensures
            match call_refusal(id@, name@) {
                None => r matches Ok(c) && c.id == id && c.name == name && c.arguments
                    == arguments,
                Some(m) => r matches Err(AgentError::UnparseableDecision(x)) && x@ == m,
            },
    {
        let call = ToolCall { id, name, arguments };
        match call.validate() {
            Ok(()) => Ok(call),
            Err(e) => Err(e),
        }
    }

    /// Checks that id and name are not blank.
    pub fn validate(&self) -> (r: Result<(), AgentError>)
        ensures
            unparseable_outcome(r, call_refusal(self.id@, self.name@)),
    {
        if is_blank(self.id.as_str()) {
            return Err(
                AgentError::UnparseableDecision(String::from_str("tool call id must not be empty")),
            );
        }
        if is_blank(self.name.as_str()) {
            return Err(
                AgentError::UnparseableDecision(String::from_str("tool call name must not be empty")),
            );
        }
        Ok(())
    }

    /// A copy equal to this one.
    pub fn duplicate(&self) -> (r: Self)
        ensures
            r == *self,
    {
        ToolCall { id: self.id.clone(), name: self.name.clone(), arguments: self.arguments.duplicate() }
    }
}

/// One message of the conversation.
#[derive(Debug)]
pub enum Message {
    /// The system prompt.
    System { content: String },
    /// A user message or the task instruction.
    User { content: String },
    /// An assistant message, with the tool calls it declares.
    Assistant { content: String, tool_calls: Vec<ToolCall> },
    /// A tool result.
    Tool { call_id: String, output: String, success: bool },
}

impl Message {
    /// The text that counts for the message's size: the content, or a tool's output.
    pub open spec fn text(self) -> Seq<char> {
        match self {
            Message::System { content } => content@,
            Message::User { content } => content@,
            Message::Assistant { content, .. } => content@,
            Message::Tool { output, .. } => output@,
        }
    }

    /// Whether two messages are alike: the same kind with the same fields
    /// (the tool calls compared as sequences).
    pub open spec fn same(self, other: Message) -> bool {
        match (self, other) {
            (Message::System { content: a }, Message::System { content: b }) => a == b,
            (Message::User { content: a }, Message::User { content: b }) => a == b,
            (
                Message::Assistant { content: a, tool_calls: x },
                Message::Assistant { content: b, tool_calls: y },
            ) => a == b && x@ == y@,
            (
                Message::Tool { call_id: a, output: o, success: s },
                Message::Tool { call_id: b, output: p, success: t },
            ) => a == b && o == p && s == t,
            _ => false,
        }
    }

    /// A copy alike to this one.
    pub fn duplicate(&self) -> (r: Self)
        ensures
            r.same(*self),
            r.text() == self.text(),
    {
        match self {
            Message::System { content } => Message::System { content: content.clone() },
            Message::User { content } => Message::User { content: content.clone() },
            Message::Assistant { content, tool_calls } => {
                let mut calls: Vec<ToolCall> = Vec::new();
                let mut i: usize = 0;
                while i < tool_calls.len()
                    invariant
                        i <= tool_calls@.len(),
                        calls@ == tool_calls@.take(i as int),
                    decreases tool_calls@.len() - i,
                {
                    calls.push(tool_calls[i].duplicate());
                    i = i + 1;
                    assert(calls@ =~= tool_calls@.take(i as int));
                }
                assert(calls@ =~= tool_calls@);
                Message::Assistant { content: content.clone(), tool_calls: calls }
            },
            Message::Tool { call_id, output, success } => Message::Tool {
                call_id: call_id.clone(),
                output: output.clone(),
                success: *success,
            },
        }
    }

    /// An assistant message without tool calls.
    pub fn assistant(content: String) -> (m: Self)
        ensures
            m matches Message::Assistant { content: c, tool_calls } && c == content
                && tool_calls@.len() == 0,
    {
        Message::Assistant { content, tool_calls: Vec::new() }
    }
}

/// The model's decision in one turn.
#[derive(Debug)]
pub enum Decision {
    /// Call a tool.
    Call(ToolCall),
    /// Ask the user a question.
    Ask { question: String },
    /// The task is done.
    Done { summary: String },
    /// The task failed.
    Fail { reason: String },
}

/// Why a decision is refused, if it is.
pub open spec fn decision_refusal(d: Decision) -> Option<Seq<char>> {
    match d {
        Decision::Call(c) => call_refusal(c.id@, c.name@),
        Decision::Ask { question } => if trim(question@).len() == 0 {
            Some("ask question must not be empty"@)
        } else {
            None
        },
        Decision::Done { summary } => if trim(summary@).len() == 0 {
            Some("done summary must not be empty"@)
        } else {
            None
        },
        Decision::Fail { reason } => if trim(reason@).len() == 0 {
            Some("fail reason must not be empty"@)
        } else {
            None
        },
    }
}

impl Decision {
    /// Checks that the decision is meaningful: a call has a non-blank id and
    /// name, and a question, summary or reason is not blank.
    pub fn validate(&self) -> (r: Result<(), AgentError>)
        ensures
            unparseable_outcome(r, decision_refusal(*self)),
    {
        match self {
            Decision::Call(call) => call.validate(),
            Decision::Ask { question } => {
                if is_blank(question.as_str()) {
                    Err(AgentError::UnparseableDecision(String::from_str("ask question must not be empty")))
                } else {
                    Ok(())
                }
            },
            Decision::Done { summary } => {
                if is_blank(summary.as_str()) {
                    Err(AgentError::UnparseableDecision(String::from_str("done summary must not be empty")))
                } else {
                    Ok(())
                }
            },
            Decision::Fail { reason } => {
                if is_blank(reason.as_str()) {
                    Err(AgentError::UnparseableDecision(String::from_str("fail reason must not be empty")))
                } else {
                    Ok(())
                }
            },
        }
    }
}

/// The id of a child agent.
#[derive(Debug, Clone, PartialEq, Eq, Hash)]
pub struct ChildId(pub String);

impl ChildId {
    /// A fresh id `child_<nanoseconds since the epoch>`.
    pub fn generate() -> (id: Self)
        ensures
            exists|n: nat| id.0@ == "child_"@ + decimal(n),
    {
        let now = now_unix_nanos();
        let mut s = String::from_str("child_");
        push_decimal(&mut s, now);
        ChildId(s)
    }

    /// The id's text (what `Display` prints).
    pub fn to_text(&self) -> (s: String)
        ensures
            s@ == self.0@,
    {
        self.0.clone()
    }
}

/// The run status of a child agent.
#[derive(Debug, Clone, Copy, PartialEq, Eq, Structural)]
pub enum ChildStatus {
    /// Running in the background.
    Running,
    /// Finished.
    Completed,
    /// Failed.
    Failed,
}

/// A directed message from the parent to a child agent.
#[derive(Debug, Clone)]
pub struct AgentMessage {
    /// The receiving child.
    pub to: ChildId,
    /// The sender (the parent or a child id).
    pub from: String,
    /// The content.
    pub content: String,
}

/// A child agent as the parent's registry holds it.
#[derive(Debug)]
pub struct ChildHandle {
    /// The child's id.
    pub child_id: ChildId,
    /// An optional name.
    pub name: Option<String>,
    /// The child's own session directory.
    pub session_dir: String,
    /// The current status.
    pub status: ChildStatus,
    /// The result summary, once finished.
    pub result: Option<String>,
    /// Messages waiting for the child.
    pub inbox: Vec<AgentMessage>,
}

} // verus!
