//! The tools that work with child agents: `subagent` starts one,
//! `agent_message` writes to its inbox, `subagent_result` reports its
//! status and result. Starting the child's loop and reading the call's JSON
//! arguments are done by the application; what the tools decide and answer
//! is here.

use vstd::prelude::*;

use crate::children::{opt_view, with_message, ChildRecord, ChildRegistry, MessageRecord};
use crate::domain::{AgentMessage, ChildId, ChildStatus};
use crate::error::AgentError;
use crate::text::{is_blank, trim};
use crate::tool::ToolOutput;

verus! {

/// The JSON text of a string (quoted, with the escapes `serde_json` writes).
pub uninterp spec fn json_string_text(s: Seq<char>) -> Seq<char>;

/// `serde_json::to_string` of a string: its JSON text. The contract names
/// the result; what the escapes are is `serde_json`'s own. Writing a string
/// into memory does not fail, so the error arm is never taken.
#[verifier::external_body]
pub(crate) fn json_string(s: &str) -> (r: String)
    ensures
        r@ == json_string_text(s@),
{
    serde_json::to_string(s).unwrap_or_default()
}

/// The JSON text of an optional string: `null` when absent.
pub open spec fn json_opt_text(s: Option<Seq<char>>) -> Seq<char> {
    match s {
        Some(t) => json_string_text(t),
        None => "null"@,
    }
}

fn json_opt(s: &Option<String>) -> (r: String)
    ensures
        r@ == json_opt_text(opt_view(*s)),
{
    match s {
        Some(t) => json_string(t.as_str()),
        None => String::from_str("null"),
    }
}

/// The refusal of `subagent` at depth zero.
pub open spec fn depth_zero_message() -> Seq<char> {
    "max_depth is 0; subagent tool is not available in this context"@
}

/// What `subagent` decides before a child starts, from the depth left and
/// the call's `task` argument (or the error of reading the arguments): the
/// depth the child gets.
pub fn admit_subagent(max_depth: u32, task: Result<&str, &str>) -> (r: Result<u32, AgentError>)
    ensures
        max_depth == 0 ==> (r matches Err(AgentError::InvalidRequest(m)) && m@ == depth_zero_message()),
        max_depth > 0 ==> match task {
            Err(e) => r matches Err(AgentError::InvalidArguments(m)) && m@ == "subagent args: "@ + e@,
            Ok(t) => if trim(t@).len() == 0 {
                r matches Err(AgentError::InvalidArguments(m)) && m@ == "task must not be empty"@
            } else {
                r == Ok::<u32, AgentError>((max_depth - 1) as u32)
            },
        },
{
    if max_depth == 0 {
        return Err(AgentError::InvalidRequest(String::from_str(
            "max_depth is 0; subagent tool is not available in this context",
        )));
    }
    match task {
        Err(e) => {
            let mut m = String::from_str("subagent args: ");
            m.append(e);
            Err(AgentError::InvalidArguments(m))
        },
        Ok(t) => if is_blank(t) {
            Err(AgentError::InvalidArguments(String::from_str("task must not be empty")))
        } else {
            Ok(max_depth - 1)
        },
    }
}

/// The admission handle of a started child, as JSON text (keys in order).
pub open spec fn handle_text(
    child_id: Seq<char>,
    name: Option<Seq<char>>,
    session_dir: Seq<char>,
    model: Option<Seq<char>>,
) -> Seq<char> {
    "{\"child_id\":"@ + json_string_text(child_id) + ",\"model\":"@ + match model {
        Some(m) => json_string_text(m),
        None => "\"parent\""@,
    } + ",\"name\":"@ + json_string_text(
        match name {
            Some(n) => n,
            None => child_id,
        },
    ) + ",\"session_dir\":"@ + json_string_text(session_dir) + ",\"status\":\"running\"}"@
}

/// What `subagent` answers once the child has started: its id, model
/// (`parent` unless given), name (the id unless given), session directory
/// and `running` status.
pub fn subagent_handle(child_id: &str, name: Option<&str>, session_dir: &str, model: Option<&str>) -> (o:
    ToolOutput)
    ensures
        o.success,
        o.content@ == handle_text(
            child_id@,
            match name {
                Some(n) => Some(n@),
                None => None,
            },
            session_dir@,
            match model {
                Some(m) => Some(m@),
                None => None,
            },
        ),
{
    let mut s = String::from_str("{\"child_id\":");
    s.append(json_string(child_id).as_str());
    s.append(",\"model\":");
    let m = match model {
        Some(m) => json_string(m),
        None => String::from_str("\"parent\""),
    };
    s.append(m.as_str());
    s.append(",\"name\":");
    let n = match name {
        Some(n) => json_string(n),
        None => json_string(child_id),
    };
    s.append(n.as_str());
    s.append(",\"session_dir\":");
    s.append(json_string(session_dir).as_str());
    s.append(",\"status\":\"running\"}");
    ToolOutput::ok(s)
}

/// `agent_message`: delivers the parent's messages to children.
#[derive(Debug, Clone, Copy, Default)]
pub struct AgentMessageTool;

/// The record of a message from the parent to `to`.
pub open spec fn parent_message(to: Seq<char>, content: Seq<char>) -> MessageRecord {
    MessageRecord { to, from: "parent"@, content }
}

impl AgentMessageTool {
    /// The tool.
    pub fn new() -> Self {
        AgentMessageTool
    }

    /// Delivers `content` from the parent to child `to`, given the call's
    /// `(to, content)` arguments (or the error of reading them). A blank
    /// recipient is refused; an unknown child is an error; both leave the
    /// registry as it was.
    pub fn send(&self, registry: &mut ChildRegistry, args: Result<(String, String), String>) -> (r: Result<
        ToolOutput,
        AgentError,
    >)
        requires
            old(registry).wf(),
        ensures
            final(registry).wf(),
            match args {
                Err(e) => (r matches Err(AgentError::InvalidArguments(m)) && m@ == "agent_message args: "@ + e@)
                    && final(registry).view() == old(registry).view(),
                Ok((to, content)) => if trim(to@).len() == 0 {
                    (r matches Err(AgentError::InvalidArguments(m)) && m@ == "recipient (to) must not be empty"@)
                        && final(registry).view() == old(registry).view()
                } else if old(registry).view().dom().contains(to@) {
                    &&& r matches Ok(o) && o.success && o.content@ == "Message sent to child "@ + to@
                    &&& final(registry).view() == old(registry).view().insert(
                        to@,
                        with_message(old(registry).view()[to@], parent_message(to@, content@)),
                    )
                } else {
                    (r matches Err(AgentError::InvalidRequest(m)) && m@ == "child agent not found: "@ + to@)
                        && final(registry).view() == old(registry).view()
                },
            },
    {
        let (to, content) = match args {
            Err(e) => {
                let mut m = String::from_str("agent_message args: ");
                m.append(e.as_str());
                return Err(AgentError::InvalidArguments(m));
            },
            Ok(a) => a,
        };
        if is_blank(to.as_str()) {
            return Err(AgentError::InvalidArguments(String::from_str("recipient (to) must not be empty")));
        }
        let child_id = ChildId(String::from_str(to.as_str()));
        let msg = AgentMessage { to: ChildId(String::from_str(to.as_str())), from: String::from_str("parent"), content };
        if registry.send_message(&child_id, msg) {
            let mut m = String::from_str("Message sent to child ");
            m.append(to.as_str());
            Ok(ToolOutput::ok(m))
        } else {
            let mut m = String::from_str("child agent not found: ");
            m.append(to.as_str());
            Err(AgentError::InvalidRequest(m))
        }
    }
}

/// `subagent_result`: reports a child's status and result.
#[derive(Debug, Clone, Copy, Default)]
pub struct SubagentResultTool;

/// The name of a child status in replies.
pub open spec fn status_text(s: ChildStatus) -> Seq<char> {
    match s {
        ChildStatus::Running => "running"@,
        ChildStatus::Completed => "completed"@,
        ChildStatus::Failed => "failed"@,
    }
}

/// The reply about child `id`, as JSON text (keys in order).
pub open spec fn result_text(id: Seq<char>, c: ChildRecord) -> Seq<char> {
    "{\"child_id\":"@ + json_string_text(id) + ",\"name\":"@ + json_opt_text(c.name) + ",\"result\":"@
        + json_opt_text(c.result) + ",\"status\":"@ + json_string_text(status_text(c.status)) + "}"@
}

impl SubagentResultTool {
    /// The tool.
    pub fn new() -> Self {
        SubagentResultTool
    }

    /// The status and result of the child named by the call's `child_id`
    /// argument (or the error of reading the arguments). The result is
    /// `null` until the child has one.
    pub fn fetch(&self, registry: &ChildRegistry, args: Result<String, String>) -> (r: Result<
        ToolOutput,
        AgentError,
    >)
        requires
            registry.wf(),
        ensures
            match args {
                Err(e) => r matches Err(AgentError::InvalidArguments(m)) && m@ == "subagent_result args: "@ + e@,
                Ok(id) => if trim(id@).len() == 0 {
                    r matches Err(AgentError::InvalidArguments(m)) && m@ == "child_id must not be empty"@
                } else if registry.view().dom().contains(id@) {
                    r matches Ok(o) && o.success && o.content@ == result_text(id@, registry.view()[id@])
                } else {
                    r matches Err(AgentError::InvalidRequest(m)) && m@ == "child agent not found: "@ + id@
                },
            },
    {
        let id = match args {
            Err(e) => {
                let mut m = String::from_str("subagent_result args: ");
                m.append(e.as_str());
                return Err(AgentError::InvalidArguments(m));
            },
            Ok(id) => id,
        };
        if is_blank(id.as_str()) {
            return Err(AgentError::InvalidArguments(String::from_str("child_id must not be empty")));
        }
        let child_id = ChildId(id);
        match registry.get(&child_id) {
            None => {
                let mut m = String::from_str("child agent not found: ");
                m.append(child_id.0.as_str());
                Err(AgentError::InvalidRequest(m))
            },
            Some(h) => {
                let status = match h.status {
                    ChildStatus::Running => "running",
                    ChildStatus::Completed => "completed",
                    ChildStatus::Failed => "failed",
                };
                let mut s = String::from_str("{\"child_id\":");
                s.append(json_string(child_id.0.as_str()).as_str());
                s.append(",\"name\":");
                s.append(json_opt(&h.name).as_str());
                s.append(",\"result\":");
                s.append(json_opt(&h.result).as_str());
                s.append(",\"status\":");
                s.append(json_string(status).as_str());
                s.append("}");
                Ok(ToolOutput::ok(s))
            },
        }
    }
}

} // verus!
