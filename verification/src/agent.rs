//! The agent loop's decisions.
//!
//! The loop itself (asking the model, running tools, writing the session)
//! is driven by the application; each of its decisions is a step here:
//! from the loop's state and what just happened to the next state and what
//! to do next.
//!
//! The loop stops when the user interrupts, when the turn budget is used
//! up, when the model answers anything but a tool call, or when the error
//! budget is exhausted. A tool error is fed back to the model as a tool
//! message, with a reminder of the errors left.

use vstd::prelude::*;

use crate::domain::{Decision, Message, ToolCall};
use crate::reminders::SystemReminders;
use crate::state::{Budget, StopReason};
use crate::text::{decimal, join, join_strings, push_decimal};

verus! {

/// Why the loop stopped.
#[derive(Debug, Clone, PartialEq, Eq)]
pub enum StopReasonPayload {
    /// The model answered `Done`.
    Completed { summary: String },
    /// The model answered `Fail`.
    ModelFailed { reason: String },
    /// The model asked a question (not answered inside the loop).
    ModelAsked { question: String },
    /// The turn budget is used up.
    BudgetExhausted { used: u32 },
    /// The error budget is exhausted.
    ToolFailed { message: String },
    /// The user interrupted (SIGINT).
    UserAborted,
}

/// The final report of one run.
#[derive(Debug, Clone)]
pub struct RunReport {
    /// The turns used.
    pub used_turns: u32,
    /// Why the loop stopped.
    pub stop_reason: StopReasonPayload,
    /// The final TODO state (always empty for now).
    pub todo_final: Vec<()>,
}

/// How many tool errors the loop takes before it stops.
#[derive(Debug, Clone, Copy, PartialEq, Eq, Structural)]
pub struct ErrorBudget {
    /// The most errors; the error that reaches it stops the loop.
    pub max_errors: u32,
    /// The errors recorded so far.
    pub used: u32,
}

impl ErrorBudget {
    /// A budget of `max_errors` errors, none used.
    pub fn new(max_errors: u32) -> (b: Self)
        ensures
            b.max_errors == max_errors,
            b.used == 0,
    {
        ErrorBudget { max_errors, used: 0 }
    }

    /// Records one error; `true` when the budget is now exhausted.
    pub fn record(&mut self) -> (exhausted: bool)
        ensures
            final(self).max_errors == old(self).max_errors,
            final(self).used == if old(self).used < u32::MAX {
                old(self).used + 1
            } else {
                old(self).used as int
            },
            exhausted == (final(self).used >= final(self).max_errors),
    {
        if self.used < u32::MAX {
            self.used = self.used + 1;
        }
        self.used >= self.max_errors
    }

    /// The errors left before the loop stops.
    pub fn remaining(&self) -> (n: u32)
        ensures
            n == if self.used < self.max_errors {
                self.max_errors - self.used
            } else {
                0
            },
    {
        if self.used < self.max_errors {
            self.max_errors - self.used
        } else {
            0
        }
    }
}

impl Default for ErrorBudget {
    /// Three errors.
    fn default() -> (b: Self)
        ensures
            b.max_errors == 3,
            b.used == 0,
    {
        ErrorBudget::new(3)
    }
}

/// The loop's own state between steps.
#[derive(Debug, Clone, Copy)]
pub struct LoopState {
    /// Turns used so far.
    pub used_turns: u32,
    /// The error budget.
    pub error_budget: ErrorBudget,
}

/// What just happened.
#[derive(Debug)]
pub enum LoopEvent {
    /// A new turn is about to start; `interrupted` is the SIGINT flag.
    TurnStarts { interrupted: bool },
    /// The model answered.
    ModelAnswered(Decision),
    /// The tool ran and gave its output.
    ToolSucceeded,
    /// The tool failed with this message.
    ToolErred { call_id: String, message: String },
}

/// What to do next.
#[derive(Debug)]
pub enum LoopAction {
    /// Stop the loop for this reason.
    Stop(StopReasonPayload),
    /// Ask the model.
    AskModel,
    /// Run this tool call.
    RunTool(ToolCall),
    /// Record this message (a tool error fed back) and start the next turn.
    FeedBack(Message),
    /// Start the next turn.
    NextTurn,
}

/// The turn after `used` (saturating).
pub open spec fn next_turn_count(used: u32) -> u32 {
    if used < u32::MAX {
        (used + 1) as u32
    } else {
        used
    }
}

/// The reminder fed back after a tool error.
pub open spec fn error_recovery_lines(remaining: u32) -> Seq<Seq<char>> {
    seq![
        "<system-reminder>"@,
        "The last tool call failed. Errors left before the run stops: "@ + decimal(remaining as nat)
            + ". Read the error, then fix the call or try another approach."@,
        "</system-reminder>"@,
    ]
}

impl SystemReminders {
    /// Attached after a tool error: how many errors are left before the run stops.
    pub fn error_recovery(remaining: u32) -> (r: Vec<String>)
        ensures
            r@.map_values(|s: String| s@) == error_recovery_lines(remaining),
    {
        let mut line = String::from_str("The last tool call failed. Errors left before the run stops: ");
        push_decimal(&mut line, remaining as u128);
        line.append(". Read the error, then fix the call or try another approach.");
        let mut r: Vec<String> = Vec::new();
        r.push(String::from_str("<system-reminder>"));
        r.push(line);
        r.push(String::from_str("</system-reminder>"));
        assert(r@.map_values(|s: String| s@) =~= error_recovery_lines(remaining));
        r
    }
}

/// The text of the tool message that feeds an error back.
pub open spec fn error_feedback_text(message: Seq<char>, remaining: u32) -> Seq<char> {
    "Tool error: "@ + message + "\n\n"@ + join(error_recovery_lines(remaining), "\n"@)
}

/// Whether `a` is what the loop does after `e` in state `s`, with `t` the next state.
pub open spec fn loop_step(s: LoopState, e: LoopEvent, budget: Budget, t: LoopState, a: LoopAction) -> bool {
    match e {
        LoopEvent::TurnStarts { interrupted } => t == s && if interrupted {
            a == LoopAction::Stop(StopReasonPayload::UserAborted)
        } else if s.used_turns >= budget.max_turns {
            a == LoopAction::Stop(StopReasonPayload::BudgetExhausted { used: s.used_turns })
        } else {
            a == LoopAction::AskModel
        },
        LoopEvent::ModelAnswered(d) => t == s && match d {
            Decision::Call(c) => a == LoopAction::RunTool(c),
            Decision::Ask { question } => a == LoopAction::Stop(StopReasonPayload::ModelAsked { question }),
            Decision::Done { summary } => a == LoopAction::Stop(StopReasonPayload::Completed { summary }),
            Decision::Fail { reason } => a == LoopAction::Stop(StopReasonPayload::ModelFailed { reason }),
        },
        LoopEvent::ToolSucceeded => t == LoopState {
            used_turns: next_turn_count(s.used_turns),
            ..s
        } && a == LoopAction::NextTurn,
        LoopEvent::ToolErred { call_id, message } => {
            let used = if s.error_budget.used < u32::MAX {
                (s.error_budget.used + 1) as u32
            } else {
                s.error_budget.used
            };
            let eb = ErrorBudget { used, ..s.error_budget };
            if used >= eb.max_errors {
                t == LoopState { error_budget: eb, ..s } && a == LoopAction::Stop(
                    StopReasonPayload::ToolFailed { message },
                )
            } else {
                &&& t == LoopState { error_budget: eb, used_turns: next_turn_count(s.used_turns) }
                &&& a matches LoopAction::FeedBack(Message::Tool { call_id: id, output, success })
                &&& id == call_id
                &&& !success
                &&& output@ == error_feedback_text(message@, (eb.max_errors - used) as u32)
            }
        },
    }
}

/// One step of the loop: from its state and what just happened to the next
/// state and what to do.
pub fn step(state: &mut LoopState, event: LoopEvent, budget: &Budget) -> (a: LoopAction)
    ensures
        loop_step(*old(state), event, *budget, *final(state), a),
{
    match event {
        LoopEvent::TurnStarts { interrupted } => {
            if interrupted {
                LoopAction::Stop(StopReasonPayload::UserAborted)
            } else if state.used_turns >= budget.max_turns {
                LoopAction::Stop(StopReasonPayload::BudgetExhausted { used: state.used_turns })
            } else {
                LoopAction::AskModel
            }
        },
        LoopEvent::ModelAnswered(d) => match d {
            Decision::Call(c) => LoopAction::RunTool(c),
            Decision::Ask { question } => LoopAction::Stop(StopReasonPayload::ModelAsked { question }),
            Decision::Done { summary } => LoopAction::Stop(StopReasonPayload::Completed { summary }),
            Decision::Fail { reason } => LoopAction::Stop(StopReasonPayload::ModelFailed { reason }),
        },
        LoopEvent::ToolSucceeded => {
            if state.used_turns < u32::MAX {
                state.used_turns = state.used_turns + 1;
            }
            LoopAction::NextTurn
        },
        LoopEvent::ToolErred { call_id, message } => {
            let exhausted = state.error_budget.record();
            if exhausted {
                LoopAction::Stop(StopReasonPayload::ToolFailed { message })
            } else {
                let reminder = SystemReminders::error_recovery(state.error_budget.remaining());
                let joined = join_strings(reminder.as_slice(), "\n");
                let mut content = String::from_str("Tool error: ");
                content.append(message.as_str());
                content.append("\n\n");
                content.append(joined.as_str());
                if state.used_turns < u32::MAX {
                    state.used_turns = state.used_turns + 1;
                }
                LoopAction::FeedBack(Message::Tool { call_id, output: content, success: false })
            }
        },
    }
}

/// The stop reason reported in the final `Stopped` event.
pub open spec fn stop_event_reason(p: StopReasonPayload) -> StopReason {
    match p {
        StopReasonPayload::Completed { summary } => StopReason::Completed { summary },
        StopReasonPayload::ModelFailed { reason } => StopReason::ModelFailed { reason },
        StopReasonPayload::ModelAsked { .. } => StopReason::UserAborted,
        StopReasonPayload::UserAborted => StopReason::UserAborted,
        StopReasonPayload::BudgetExhausted { used } => StopReason::TurnBudgetReached { used },
        StopReasonPayload::ToolFailed { message } => StopReason::VerificationFailed { message },
    }
}

/// The stop reason reported in the final `Stopped` event.
pub fn stopped_reason(p: &StopReasonPayload) -> (r: StopReason)
    ensures
        r == stop_event_reason(*p),
{
    match p {
        StopReasonPayload::Completed { summary } => StopReason::Completed { summary: summary.clone() },
        StopReasonPayload::ModelFailed { reason } => StopReason::ModelFailed { reason: reason.clone() },
        StopReasonPayload::ModelAsked { .. } => StopReason::UserAborted,
        StopReasonPayload::UserAborted => StopReason::UserAborted,
        StopReasonPayload::BudgetExhausted { used } => StopReason::TurnBudgetReached { used: *used },
        StopReasonPayload::ToolFailed { message } => StopReason::VerificationFailed {
            message: message.clone(),
        },
    }
}

/// Whether some message is a user message.
pub open spec fn has_user(ms: Seq<Message>) -> bool {
    exists|i: int| 0 <= i < ms.len() && #[trigger] ms[i] is User
}

/// The messages to add before the first turn: the system prompt (the
/// baseline reminders, one per line) when the session is empty, and the
/// instruction as a user message when no user message is there yet.
pub fn opening_messages(existing: &[Message], instruction: &str) -> (r: Vec<Message>)
    ensures
        ({
            let sys: int = if existing@.len() == 0 {
                1
            } else {
                0
            };
            &&& r@.len() == sys + if has_user(existing@) {
                0int
            } else {
                1int
            }
            &&& sys == 1 ==> (r@[0] matches Message::System { content } && content@ == join(
                seq![
                    "<system-reminder>"@,
                    "Do what has been asked; nothing more, nothing less."@,
                    "NEVER create files unless they're absolutely necessary for achieving your goal."@,
                    "ALWAYS prefer editing an existing file to creating a new one."@,
                    "NEVER proactively create documentation files (*.md) or README files."@,
                    "</system-reminder>"@,
                ],
                "\n"@,
            ))
            &&& !has_user(existing@) ==> (r@[sys] matches Message::User { content } && content@
                == instruction@)
        }),
{
    let mut r: Vec<Message> = Vec::new();
    if existing.len() == 0 {
        let lines = SystemReminders::baseline();
        let content = join_strings(lines.as_slice(), "\n");
        r.push(Message::System { content });
    }
    let mut found = false;
    let mut i: usize = 0;
    while i < existing.len()
        invariant
            i <= existing@.len(),
            found == exists|j: int| 0 <= j < i && #[trigger] existing@[j] is User,
        decreases existing@.len() - i,
    {
        if let Message::User { .. } = &existing[i] {
            found = true;
        }
        i = i + 1;
    }
    if !found {
        r.push(Message::User { content: String::from_str(instruction) });
    }
    r
}

/// The turn budget is a hard stop: once the turns used reach the budget,
/// the next turn does not ask the model.
pub proof fn law_turn_budget_stops_the_loop(s: LoopState, budget: Budget, t: LoopState, a: LoopAction)
    requires
        s.used_turns >= budget.max_turns,
        loop_step(s, LoopEvent::TurnStarts { interrupted: false }, budget, t, a),
    ensures
        a == LoopAction::Stop(StopReasonPayload::BudgetExhausted { used: s.used_turns }),
{
}

/// An interrupt always stops the loop before the model is asked.
pub proof fn law_interrupt_stops_the_loop(s: LoopState, budget: Budget, t: LoopState, a: LoopAction)
    requires
        loop_step(s, LoopEvent::TurnStarts { interrupted: true }, budget, t, a),
    ensures
        a == LoopAction::Stop(StopReasonPayload::UserAborted),
{
}

/// With an error budget of `m`, the first `m - 1` tool errors are fed back to
/// the model and the `m`-th stops the loop: an error stops it exactly when
/// it is the one that reaches the budget.
pub proof fn law_error_budget_caps_tool_errors(
    s: LoopState,
    budget: Budget,
    call_id: String,
    message: String,
    t: LoopState,
    a: LoopAction,
)
    requires
        s.error_budget.used < s.error_budget.max_errors,
        loop_step(s, LoopEvent::ToolErred { call_id, message }, budget, t, a),
    ensures
        (a is Stop) == (s.error_budget.used + 1 == s.error_budget.max_errors),
        t.error_budget.used == s.error_budget.used + 1,
{
}

/// Every tool turn, whether it succeeded or its error was fed back, uses
/// exactly one turn (below the counter's limit).
pub proof fn law_tool_turn_uses_one_turn(s: LoopState, e: LoopEvent, budget: Budget, t: LoopState, a: LoopAction)
    requires
        s.used_turns < u32::MAX,
        e is ToolSucceeded || e is ToolErred,
        loop_step(s, e, budget, t, a),
        !(a is Stop),
    ensures
        t.used_turns == s.used_turns + 1,
{
}

/// The loop goes on after the model's answer exactly when the answer is a
/// tool call: any other answer stops it.
pub proof fn law_only_a_call_continues(s: LoopState, d: Decision, budget: Budget, t: LoopState, a: LoopAction)
    requires
        loop_step(s, LoopEvent::ModelAnswered(d), budget, t, a),
    ensures
        (a is RunTool) == (d is Call),
        (a is Stop) == !(d is Call),
        t == s,
{
}

/// The loop stops for four causes only: an interrupt, the turn budget, the
/// error budget, or a model answer that is not a tool call. A tool that
/// succeeded never stops it.
pub proof fn law_stops_have_four_causes(s: LoopState, e: LoopEvent, budget: Budget, t: LoopState, a: LoopAction)
    requires
        loop_step(s, e, budget, t, a),
        a is Stop,
    ensures
        match e {
            LoopEvent::TurnStarts { interrupted } => (interrupted && a == LoopAction::Stop(StopReasonPayload::UserAborted))
                || (!interrupted && s.used_turns >= budget.max_turns && a == LoopAction::Stop(
                StopReasonPayload::BudgetExhausted { used: s.used_turns },
            )),
            LoopEvent::ModelAnswered(d) => !(d is Call),
            LoopEvent::ToolSucceeded => false,
            LoopEvent::ToolErred { .. } => t.error_budget.used >= t.error_budget.max_errors,
        },
{
}

/// Whether a run follows the loop's protocol: `states[i + 1]` and
/// `actions[i]` come from `states[i]` and `events[i]` by a step of the loop,
/// the model answers only right after it was asked, and a tool reports only
/// right after it was run.
pub open spec fn is_run(
    states: Seq<LoopState>,
    events: Seq<LoopEvent>,
    actions: Seq<LoopAction>,
    budget: Budget,
) -> bool {
    &&& states.len() == events.len() + 1
    &&& actions.len() == events.len()
    &&& forall|i: int|
        0 <= i < events.len() ==> loop_step(states[i], #[trigger] events[i], budget, states[i + 1], actions[i])
    &&& forall|i: int| 0 <= i < events.len() && #[trigger] events[i] is ModelAnswered ==> i > 0 && actions[i - 1] is AskModel
    &&& forall|i: int|
        0 <= i < events.len() && (#[trigger] events[i] is ToolSucceeded || events[i] is ToolErred) ==> i > 0
            && actions[i - 1] is RunTool
}

/// Over a whole run that starts within the turn budget, the turns used never
/// pass the budget, and the model is asked only while a turn is left.
pub proof fn law_runs_stay_within_turn_budget(
    states: Seq<LoopState>,
    events: Seq<LoopEvent>,
    actions: Seq<LoopAction>,
    budget: Budget,
    i: int,
)
    requires
        is_run(states, events, actions, budget),
        states[0].used_turns <= budget.max_turns,
        0 <= i < states.len(),
    ensures
        states[i].used_turns <= budget.max_turns,
        i < actions.len() && actions[i] is AskModel ==> states[i].used_turns < budget.max_turns,
    decreases i,
{
    if i < actions.len() && actions[i] is AskModel {
        assert(loop_step(states[i], events[i], budget, states[i + 1], actions[i]));
    }
    if i > 0 {
        let k = i - 1;
        law_runs_stay_within_turn_budget(states, events, actions, budget, k);
        assert(loop_step(states[k], events[k], budget, states[i], actions[k]));
        if events[k] is ToolSucceeded || events[k] is ToolErred {
            // The tool ran after a call, and the call came after the model was asked.
            assert(k > 0 && actions[k - 1] is RunTool);
            assert(loop_step(states[k - 1], events[k - 1], budget, states[k], actions[k - 1]));
            assert(events[k - 1] is ModelAnswered);
            assert(k - 1 > 0 && actions[k - 2] is AskModel);
            assert(loop_step(states[k - 2], events[k - 2], budget, states[k - 1], actions[k - 2]));
            law_runs_stay_within_turn_budget(states, events, actions, budget, k - 2);
            assert(states[k].used_turns < budget.max_turns);
        }
    }
}

} // verus!
