//! The tool interface and its context.
//!
//! Tools do not call each other; all input and output goes through the
//! arguments and the context they are given.

use vstd::prelude::*;

use crate::domain::{empty_json_object, ToolArgument};

verus! {

/// The read-only context of one tool execution.
#[derive(Debug, Clone)]
pub struct ToolContext {
    /// The workspace root.
    pub workspace: String,
    /// The tool call id.
    pub call_id: String,
}

impl ToolContext {
    /// A context for one call.
    pub fn new(workspace: String, call_id: String) -> (c: Self)
        ensures
            c.workspace == workspace,
            c.call_id == call_id,
    {
        ToolContext { workspace, call_id }
    }
}

/// The input of a tool.
#[derive(Debug)]
pub struct ToolInput {
    /// The call's arguments.
    pub arguments: ToolArgument,
}

impl ToolInput {
    /// An input holding `arguments`.
    pub fn new(arguments: ToolArgument) -> (i: Self)
        ensures
            i.arguments == arguments,
    {
        ToolInput { arguments }
    }
}

/// The output of a tool.
#[derive(Debug, Clone, PartialEq, Eq)]
pub struct ToolOutput {
    /// The text.
    pub content: String,
    /// Whether the tool succeeded.
    pub success: bool,
}

impl ToolOutput {
    /// A successful output.
    pub fn ok(content: String) -> (o: Self)
        ensures
            o.content == content,
            o.success,
    {
        ToolOutput { content, success: true }
    }

    /// A failed output.
    pub fn err(content: String) -> (o: Self)
        ensures
            o.content == content,
            !o.success,
    {
        ToolOutput { content, success: false }
    }
}

/// What a tool tells the model and the CLI about itself.
#[derive(Debug)]
pub struct ToolSchema {
    /// The tool's name.
    pub name: String,
    /// What the tool does.
    pub description: String,
    /// The arguments as a JSON schema (`{}` until set).
    pub parameters: serde_json::Value,
}

impl ToolSchema {
    /// A schema with empty parameters `{}`.
    pub fn new(name: String, description: String) -> (s: Self)
        ensures
            s.name == name,
            s.description == description,
    {
        ToolSchema { name, description, parameters: empty_json_object() }
    }
}

} // verus!
