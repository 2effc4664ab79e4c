//! The agent's unified error type.

use vstd::prelude::*;

use crate::text::concat_str;

verus! {

/// Every recoverable and unrecoverable error of the agent.
#[derive(Debug, Clone, PartialEq, Eq)]
pub enum AgentError {
    /// The task request is not well formed.
    InvalidRequest(String),
    /// An illegal state transition.
    InvalidTransition(String),
    /// A budget (turns, bytes, time) is exhausted.
    BudgetExhausted(String),
    /// The model output could not be read as a decision.
    UnparseableDecision(String),
    /// A tool that is not registered or is disabled.
    UnknownTool(String),
    /// A tool failed while executing.
    ToolFailed(String),
    /// Verification (tests, lint) failed.
    VerificationFailed(String),
    /// A path escapes the workspace or is sensitive.
    PathPolicy(String),
    /// The command policy refused to run a command.
    CommandPolicy(String),
    /// An error while collecting context.
    Context(String),
    /// Tool arguments do not fit the schema.
    InvalidArguments(String),
    /// The operation needs a confirmation first.
    NeedsConfirmation(String),
    /// The feature is not implemented yet.
    NotImplemented(String),
}

/// The kind of an error, without its message.
#[derive(Debug, Clone, Copy, PartialEq, Eq, Structural)]
pub enum ErrorKind {
    InvalidRequest,
    InvalidTransition,
    BudgetExhausted,
    UnparseableDecision,
    UnknownTool,
    ToolFailed,
    VerificationFailed,
    PathPolicy,
    CommandPolicy,
    Context,
    InvalidArguments,
    NeedsConfirmation,
    NotImplemented,
}

impl AgentError {
    /// The kind of this error.
    pub open spec fn kind(self) -> ErrorKind {
        match self {
            AgentError::InvalidRequest(_) => ErrorKind::InvalidRequest,
            AgentError::InvalidTransition(_) => ErrorKind::InvalidTransition,
            AgentError::BudgetExhausted(_) => ErrorKind::BudgetExhausted,
            AgentError::UnparseableDecision(_) => ErrorKind::UnparseableDecision,
            AgentError::UnknownTool(_) => ErrorKind::UnknownTool,
            AgentError::ToolFailed(_) => ErrorKind::ToolFailed,
            AgentError::VerificationFailed(_) => ErrorKind::VerificationFailed,
            AgentError::PathPolicy(_) => ErrorKind::PathPolicy,
            AgentError::CommandPolicy(_) => ErrorKind::CommandPolicy,
            AgentError::Context(_) => ErrorKind::Context,
            AgentError::InvalidArguments(_) => ErrorKind::InvalidArguments,
            AgentError::NeedsConfirmation(_) => ErrorKind::NeedsConfirmation,
            AgentError::NotImplemented(_) => ErrorKind::NotImplemented,
        }
    }

    /// The message that the error carries.
    pub open spec fn detail(self) -> Seq<char> {
        match self {
            AgentError::InvalidRequest(m) => m@,
            AgentError::InvalidTransition(m) => m@,
            AgentError::BudgetExhausted(m) => m@,
            AgentError::UnparseableDecision(m) => m@,
            AgentError::UnknownTool(m) => m@,
            AgentError::ToolFailed(m) => m@,
            AgentError::VerificationFailed(m) => m@,
            AgentError::PathPolicy(m) => m@,
            AgentError::CommandPolicy(m) => m@,
            AgentError::Context(m) => m@,
            AgentError::InvalidArguments(m) => m@,
            AgentError::NeedsConfirmation(m) => m@,
            AgentError::NotImplemented(m) => m@,
        }
    }

    /// Whether an error of this kind is worth retrying automatically.
    /// Only the transient context errors are.
    pub open spec fn spec_is_retryable(self) -> bool {
        self is Context
    }

    /// The process exit code of an error: policy refusals give 3, all others 1.
    pub open spec fn spec_exit_code(self) -> u8 {
        match self {
            AgentError::PathPolicy(_) | AgentError::CommandPolicy(_)
            | AgentError::NeedsConfirmation(_) => 3,
            _ => 1,
        }
    }

    /// Whether this error is worth an automatic retry.
    pub fn is_retryable(&self) -> (r: bool)
        ensures
            r == self.spec_is_retryable(),
    {
        match self {
            AgentError::Context(_) => true,
            _ => false,
        }
    }

    /// The CLI exit code of this error.
    pub fn exit_code(&self) -> (r: u8)
        ensures
            r == self.spec_exit_code(),
    {
        match self {
            AgentError::PathPolicy(_) | AgentError::CommandPolicy(_)
            | AgentError::NeedsConfirmation(_) => 3,
            _ => 1,
        }
    }

    /// The prefix that the error's text starts with.
    pub open spec fn spec_prefix(k: ErrorKind) -> Seq<char> {
        match k {
            ErrorKind::InvalidRequest => "invalid task request: "@,
            ErrorKind::InvalidTransition => "invalid state transition: "@,
            ErrorKind::BudgetExhausted => "budget exhausted: "@,
            ErrorKind::UnparseableDecision => "model output unparseable: "@,
            ErrorKind::UnknownTool => "unknown tool: "@,
            ErrorKind::ToolFailed => "tool execution failed: "@,
            ErrorKind::VerificationFailed => "verification failed: "@,
            ErrorKind::PathPolicy => "path policy violation: "@,
            ErrorKind::CommandPolicy => "command policy violation: "@,
            ErrorKind::Context => "context error: "@,
            ErrorKind::InvalidArguments => "invalid arguments: "@,
            ErrorKind::NeedsConfirmation => "confirmation required: "@,
            ErrorKind::NotImplemented => "not implemented: "@,
        }
    }

    /// The human-readable text of the error: its kind's prefix, then its message.
    pub fn to_text(&self) -> (s: String)
        ensures
            s@ == Self::spec_prefix(self.kind()) + self.detail(),
    {
        let (prefix, m): (&str, &String) = match self {
            AgentError::InvalidRequest(m) => ("invalid task request: ", m),
            AgentError::InvalidTransition(m) => ("invalid state transition: ", m),
            AgentError::BudgetExhausted(m) => ("budget exhausted: ", m),
            AgentError::UnparseableDecision(m) => ("model output unparseable: ", m),
            AgentError::UnknownTool(m) => ("unknown tool: ", m),
            AgentError::ToolFailed(m) => ("tool execution failed: ", m),
            AgentError::VerificationFailed(m) => ("verification failed: ", m),
            AgentError::PathPolicy(m) => ("path policy violation: ", m),
            AgentError::CommandPolicy(m) => ("command policy violation: ", m),
            AgentError::Context(m) => ("context error: ", m),
            AgentError::InvalidArguments(m) => ("invalid arguments: ", m),
            AgentError::NeedsConfirmation(m) => ("confirmation required: ", m),
            AgentError::NotImplemented(m) => ("not implemented: ", m),
        };
        concat_str(prefix, m.as_str())
    }
}

} // verus!
