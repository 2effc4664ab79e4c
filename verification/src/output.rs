//! Run report output: the human-readable text and the JSON report's fields
//! (schema `aura.report.v1`; serializing it is done by the application).

use vstd::prelude::*;

use crate::agent::{RunReport, StopReasonPayload};
use crate::text::{decimal, push_decimal};

verus! {

/// The JSON report (schema `aura.report.v1`).
#[derive(Debug, Clone)]
pub struct JsonReport {
    /// The schema version.
    pub schema: String,
    /// The task instruction.
    pub instruction: String,
    /// The workspace path.
    pub workspace: String,
    /// `ok`, `failed` or `aborted`.
    pub status: String,
    /// The turns used.
    pub used_turns: u32,
    /// The summary: completion, failure reason, question or interruption.
    pub summary: String,
    /// The final TODO state (always empty for now).
    pub todo_final: Vec<()>,
}

/// The `(status, summary)` of a stop reason in the JSON report.
pub open spec fn json_status(p: StopReasonPayload) -> (Seq<char>, Seq<char>) {
    match p {
        StopReasonPayload::Completed { summary } => ("ok"@, summary@),
        StopReasonPayload::ModelFailed { reason } => ("failed"@, "model failed: "@ + reason@),
        StopReasonPayload::ModelAsked { question } => ("failed"@, "model asked: "@ + question@),
        StopReasonPayload::BudgetExhausted { used } => (
            "failed"@,
            "budget exhausted at turn "@ + decimal(used as nat),
        ),
        StopReasonPayload::ToolFailed { message } => ("failed"@, "tool failed: "@ + message@),
        StopReasonPayload::UserAborted => ("aborted"@, "user aborted (SIGINT)"@),
    }
}

fn prefixed(prefix: &str, rest: &str) -> (s: String)
    ensures
        s@ == prefix@ + rest@,
{
    let mut s = String::from_str(prefix);
    s.append(rest);
    s
}

impl JsonReport {
    /// The JSON report of a run.
    pub fn from_report(instruction: &str, workspace: &str, report: &RunReport) -> (j: Self)
        ensures
            j.schema@ == "aura.report.v1"@,
            j.instruction@ == instruction@,
            j.workspace@ == workspace@,
            (j.status@, j.summary@) == json_status(report.stop_reason),
            j.used_turns == report.used_turns,
            j.todo_final@ == report.todo_final@,
    {
        let (status, summary) = match &report.stop_reason {
            StopReasonPayload::Completed { summary } => (String::from_str("ok"), summary.clone()),
            StopReasonPayload::ModelFailed { reason } => (
                String::from_str("failed"),
                prefixed("model failed: ", reason.as_str()),
            ),
            StopReasonPayload::ModelAsked { question } => (
                String::from_str("failed"),
                prefixed("model asked: ", question.as_str()),
            ),
            StopReasonPayload::BudgetExhausted { used } => {
                let mut s = String::from_str("budget exhausted at turn ");
                push_decimal(&mut s, *used as u128);
                (String::from_str("failed"), s)
            },
            StopReasonPayload::ToolFailed { message } => (
                String::from_str("failed"),
                prefixed("tool failed: ", message.as_str()),
            ),
            StopReasonPayload::UserAborted => (
                String::from_str("aborted"),
                String::from_str("user aborted (SIGINT)"),
            ),
        };
        let mut todo: Vec<()> = Vec::new();
        let mut i: usize = 0;
        while i < report.todo_final.len()
            invariant
                i <= report.todo_final@.len(),
                todo@ == report.todo_final@.take(i as int),
            decreases report.todo_final@.len() - i,
        {
            todo.push(());
            i = i + 1;
            assert(todo@ =~= report.todo_final@.take(i as int));
        }
        assert(report.todo_final@.take(i as int) =~= report.todo_final@);
        JsonReport {
            schema: String::from_str("aura.report.v1"),
            instruction: String::from_str(instruction),
            workspace: String::from_str(workspace),
            status,
            used_turns: report.used_turns,
            summary,
            todo_final: todo,
        }
    }
}

/// The status lines of a stop reason in the text report.
pub open spec fn text_status(p: StopReasonPayload) -> Seq<char> {
    match p {
        StopReasonPayload::Completed { summary } => "status:      OK\nsummary:     "@ + summary@ + "\n"@,
        StopReasonPayload::ModelFailed { reason } => "status:      FAILED\nreason:      model failed: "@
            + reason@ + "\n"@,
        StopReasonPayload::ModelAsked { question } => "status:      ASK\nquestion:    "@ + question@
            + "\n"@,
        StopReasonPayload::BudgetExhausted { used } =>
            "status:      FAILED\nreason:      budget exhausted at turn "@ + decimal(used as nat)
            + "\n"@,
        StopReasonPayload::ToolFailed { message } => "status:      FAILED\nreason:      tool failed: "@
            + message@ + "\n"@,
        StopReasonPayload::UserAborted => "status:      ABORTED\nreason:      user aborted (SIGINT)\n"@,
    }
}

/// The human-readable report of a run.
pub fn format_text_report(instruction: &str, workspace: &str, report: &RunReport) -> (s: String)
    ensures
        s@ == "Aura run report\n================\ninstruction: "@ + instruction@ + "\nworkspace:   "@
            + workspace@ + "\nused_turns:  "@ + decimal(report.used_turns as nat) + "\n"@ + text_status(
            report.stop_reason,
        ),
{
    let mut s = String::from_str("Aura run report\n================\ninstruction: ");
    s.append(instruction);
    s.append("\nworkspace:   ");
    s.append(workspace);
    s.append("\nused_turns:  ");
    push_decimal(&mut s, report.used_turns as u128);
    s.append("\n");
    match &report.stop_reason {
        StopReasonPayload::Completed { summary } => {
            s.append("status:      OK\nsummary:     ");
            s.append(summary.as_str());
            s.append("\n");
        },
        StopReasonPayload::ModelFailed { reason } => {
            s.append("status:      FAILED\nreason:      model failed: ");
            s.append(reason.as_str());
            s.append("\n");
        },
        StopReasonPayload::ModelAsked { question } => {
            s.append("status:      ASK\nquestion:    ");
            s.append(question.as_str());
            s.append("\n");
        },
        StopReasonPayload::BudgetExhausted { used } => {
            s.append("status:      FAILED\nreason:      budget exhausted at turn ");
            push_decimal(&mut s, *used as u128);
            s.append("\n");
        },
        StopReasonPayload::ToolFailed { message } => {
            s.append("status:      FAILED\nreason:      tool failed: ");
            s.append(message.as_str());
            s.append("\n");
        },
        StopReasonPayload::UserAborted => {
            s.append("status:      ABORTED\nreason:      user aborted (SIGINT)\n");
        },
    }
    s
}

} // verus!

verus! {

/// The process exit code of a run: 0 when it completed, 1 otherwise.
pub fn report_exit_code(report: &RunReport) -> (code: u8)
    ensures
        code == exit_code_for(report.stop_reason),
        code == if report.stop_reason is Completed {
            0u8
        } else {
            1u8
        },
{
    match &report.stop_reason {
        StopReasonPayload::Completed { .. } => 0,
        _ => 1,
    }
}

/// The process exit code for a stop reason: 0 on completion, else 1.
pub open spec fn exit_code_for(p: StopReasonPayload) -> u8 {
    if p is Completed {
        0
    } else {
        1
    }
}

/// The JSON status tells how the run ended: `ok` exactly when the model
/// completed the task (the runs that exit with 0), `aborted` exactly when the
/// user interrupted it, and `failed` for every other stop.
pub proof fn law_status_matches_how_the_run_ended(p: StopReasonPayload)
    ensures
        (json_status(p).0 == "ok"@) <==> p is Completed,
        (json_status(p).0 == "ok"@) <==> exit_code_for(p) == 0,
        (json_status(p).0 == "aborted"@) <==> p is UserAborted,
        (json_status(p).0 == "failed"@) <==> !(p is Completed || p is UserAborted),
{
    reveal_strlit("ok");
    reveal_strlit("failed");
    reveal_strlit("aborted");
    assert("ok"@.len() == 2 && "failed"@.len() == 6 && "aborted"@.len() == 7);
}


/// The JSON summary carries what the run ended with: the model's summary on
/// completion, and the reason, question or message after its label
/// otherwise.
pub proof fn law_summary_carries_the_stop_text(p: StopReasonPayload)
    ensures
        p matches StopReasonPayload::Completed { summary } ==> json_status(p).1 == summary@,
        p matches StopReasonPayload::ModelFailed { reason } ==> json_status(p).1 == "model failed: "@ + reason@,
        p matches StopReasonPayload::ModelAsked { question } ==> json_status(p).1 == "model asked: "@ + question@,
        p matches StopReasonPayload::ToolFailed { message } ==> json_status(p).1 == "tool failed: "@ + message@,
        p matches StopReasonPayload::BudgetExhausted { used } ==> json_status(p).1 == "budget exhausted at turn "@
            + decimal(used as nat),
{
}


} // verus!
