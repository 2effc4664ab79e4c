//! Running one bench task: the runner's settings, the shell command that
//! starts the agent and the status a run ends in. Starting processes is done
//! by the application.

use vstd::prelude::*;

use crate::text::{decimal, push_char, push_decimal, replace_all, replace_text};

verus! {

/// How a task run ended.
#[derive(Debug, Clone, Copy, PartialEq, Eq, Structural)]
pub enum TaskStatus {
    Passed,
    Failed,
    Timeout,
    Error,
}

/// Runs single tasks: the agent command and the default timeout.
#[derive(Debug)]
pub struct TaskRunner {
    /// The command that starts the agent.
    pub agent_cmd: String,
    /// The default timeout in seconds.
    pub default_timeout_s: u64,
}

impl TaskRunner {
    /// A runner for `cargo run --bin aura` with a 300 s timeout.
    pub fn new() -> (r: Self)
        ensures
            r.agent_cmd@ == "cargo run --bin aura"@,
            r.default_timeout_s == 300,
    {
        TaskRunner { agent_cmd: String::from_str("cargo run --bin aura"), default_timeout_s: 300 }
    }

    /// The same runner with another agent command.
    pub fn agent_cmd(self, cmd: &str) -> (r: Self)
        ensures
            r.agent_cmd@ == cmd@,
            r.default_timeout_s == self.default_timeout_s,
    {
        TaskRunner { agent_cmd: String::from_str(cmd), ..self }
    }

    /// The same runner with another default timeout.
    pub fn default_timeout(self, seconds: u64) -> (r: Self)
        ensures
            r.agent_cmd == self.agent_cmd,
            r.default_timeout_s == seconds,
    {
        TaskRunner { default_timeout_s: seconds, ..self }
    }
}

impl Default for TaskRunner {
    fn default() -> (r: Self)
        ensures
            r.agent_cmd@ == "cargo run --bin aura"@,
            r.default_timeout_s == 300,
    {
        Self::new()
    }
}

/// `'` written inside single quotes for `sh`: close the quote, an escaped
/// quote, open again.
pub open spec fn sh_quoted(s: Seq<char>) -> Seq<char> {
    replace_all(s, "'"@, "'\\''"@)
}

/// The shell command that runs the agent on an instruction in a workspace.
pub open spec fn agent_command_text(root: Seq<char>, agent_cmd: Seq<char>, instruction: Seq<char>) -> Seq<
    char,
> {
    "cd '"@ + root + "' && "@ + agent_cmd + " --json --workspace '"@ + root + "' -- '"@ + sh_quoted(
        instruction,
    ) + "' 2>&1"@
}

/// The shell command that runs the agent on an instruction in a workspace.
pub fn agent_command(root: &str, agent_cmd: &str, instruction: &str) -> (s: String)
    ensures
        s@ == agent_command_text(root@, agent_cmd@, instruction@),
{
    proof {
        reveal_strlit("'");
    }
    let escaped = replace_text(instruction, "'", "'\\''");
    let mut s = String::from_str("cd '");
    s.append(root);
    s.append("' && ");
    s.append(agent_cmd);
    s.append(" --json --workspace '");
    s.append(root);
    s.append("' -- '");
    s.append(escaped.as_str());
    s.append("' 2>&1");
    s
}

/// The decimal text of an integer, with a `-` when negative.
pub open spec fn signed_decimal(x: int) -> Seq<char> {
    if x < 0 {
        seq!['-'] + decimal((-x) as nat)
    } else {
        decimal(x as nat)
    }
}

/// The status a run ends in: a timeout first, then an agent error, then a
/// failed verification.
pub open spec fn outcome_status(timed_out: bool, agent_failed: bool, verify_exit_code: int) -> TaskStatus {
    if timed_out {
        TaskStatus::Timeout
    } else if agent_failed {
        TaskStatus::Error
    } else if verify_exit_code != 0 {
        TaskStatus::Failed
    } else {
        TaskStatus::Passed
    }
}

/// The status of a finished run and its error: the agent's own error, else
/// a failed verification's exit code.
pub fn task_outcome(timed_out: bool, agent_error: Option<String>, verify_exit_code: i32) -> (r: (
    TaskStatus,
    Option<String>,
))
    ensures
        r.0 == outcome_status(timed_out, agent_error is Some, verify_exit_code as int),
        match agent_error {
            Some(e) => r.1 == Some(e),
            None => if verify_exit_code != 0 {
                r.1 matches Some(m) && m@ == "verify failed with exit code "@ + signed_decimal(
                    verify_exit_code as int,
                )
            } else {
                r.1 is None
            },
        },
{
    let status = if timed_out {
        TaskStatus::Timeout
    } else if agent_error.is_some() {
        TaskStatus::Error
    } else if verify_exit_code != 0 {
        TaskStatus::Failed
    } else {
        TaskStatus::Passed
    };
    let error = match agent_error {
        Some(e) => Some(e),
        None => if verify_exit_code != 0 {
            let mut m = String::from_str("verify failed with exit code ");
            if verify_exit_code < 0 {
                push_char(&mut m, '-');
                let magnitude: u128 = (0i64 - verify_exit_code as i64) as u128;
                push_decimal(&mut m, magnitude);
            } else {
                push_decimal(&mut m, verify_exit_code as u128);
            }
            Some(m)
        } else {
            None
        },
    };
    (status, error)
}

} // verus!
