//! The agent state machine, task budgets and stop reasons.
//!
//! The state machine is plain data: it performs no I/O, and every transition
//! is checked against a single table of legal moves.

use vstd::prelude::*;

use crate::error::AgentError;
use crate::text::{concat_str, decimal, push_decimal};

verus! {

/// The agent's current state.
#[derive(Debug, Clone, Copy, PartialEq, Eq, Structural)]
pub enum AgentState {
    /// Idle, waiting for a task.
    Ready,
    /// The model is deciding.
    Planning,
    /// A tool is running.
    ExecutingTool,
    /// Waiting for the user to clarify.
    WaitingForUser,
    /// Running verification (tests, lint).
    Verifying,
    /// The task is done.
    Completed,
    /// The task failed.
    Failed,
}

/// A terminal state is `Completed` or `Failed`.
pub open spec fn spec_is_terminal(s: AgentState) -> bool {
    s is Completed || s is Failed
}

impl AgentState {
    /// Whether the state is terminal (`Completed` or `Failed`).
    pub fn is_terminal(self) -> (r: bool)
        ensures
            r == spec_is_terminal(self),
    {
        match self {
            AgentState::Completed | AgentState::Failed => true,
            _ => false,
        }
    }

    /// The name of the state, as `Debug` prints it.
    pub open spec fn spec_name(self) -> Seq<char> {
        match self {
            AgentState::Ready => "Ready"@,
            AgentState::Planning => "Planning"@,
            AgentState::ExecutingTool => "ExecutingTool"@,
            AgentState::WaitingForUser => "WaitingForUser"@,
            AgentState::Verifying => "Verifying"@,
            AgentState::Completed => "Completed"@,
            AgentState::Failed => "Failed"@,
        }
    }

    /// The name of the state, as `Debug` prints it.
    pub fn name(self) -> (r: &'static str)
        ensures
            r@ == self.spec_name(),
    {
        match self {
            AgentState::Ready => "Ready",
            AgentState::Planning => "Planning",
            AgentState::ExecutingTool => "ExecutingTool",
            AgentState::WaitingForUser => "WaitingForUser",
            AgentState::Verifying => "Verifying",
            AgentState::Completed => "Completed",
            AgentState::Failed => "Failed",
        }
    }
}

/// The table of legal transitions.
pub open spec fn spec_is_legal(from: AgentState, to: AgentState) -> bool {
    match (from, to) {
        (AgentState::Ready, AgentState::Planning) => true,
        (AgentState::Planning, AgentState::ExecutingTool) => true,
        (AgentState::Planning, AgentState::WaitingForUser) => true,
        (AgentState::Planning, AgentState::Verifying) => true,
        (AgentState::Planning, AgentState::Failed) => true,
        (AgentState::ExecutingTool, AgentState::Planning) => true,
        (AgentState::ExecutingTool, AgentState::Failed) => true,
        (AgentState::WaitingForUser, AgentState::Planning) => true,
        (AgentState::WaitingForUser, AgentState::Failed) => true,
        (AgentState::Verifying, AgentState::Completed) => true,
        (AgentState::Verifying, AgentState::Failed) => true,
        _ => false,
    }
}

/// Whether moving from `from` to `to` is allowed by the transition table.
pub fn is_legal(from: AgentState, to: AgentState) -> (r: bool)
    ensures
        r == spec_is_legal(from, to),
{
    match (from, to) {
        (AgentState::Ready, AgentState::Planning) => true,
        (AgentState::Planning, AgentState::ExecutingTool) => true,
        (AgentState::Planning, AgentState::WaitingForUser) => true,
        (AgentState::Planning, AgentState::Verifying) => true,
        (AgentState::Planning, AgentState::Failed) => true,
        (AgentState::ExecutingTool, AgentState::Planning) => true,
        (AgentState::ExecutingTool, AgentState::Failed) => true,
        (AgentState::WaitingForUser, AgentState::Planning) => true,
        (AgentState::WaitingForUser, AgentState::Failed) => true,
        (AgentState::Verifying, AgentState::Completed) => true,
        (AgentState::Verifying, AgentState::Failed) => true,
        _ => false,
    }
}

/// Why the loop stopped.
#[derive(Debug, Clone, PartialEq, Eq)]
pub enum StopReason {
    /// The model answered `Done`.
    Completed { summary: String },
    /// The model answered `Fail`.
    ModelFailed { reason: String },
    /// The turn budget was reached.
    TurnBudgetReached { used: u32 },
    /// The context byte budget was reached.
    ContextBudgetReached { used: u64 },
    /// Verification did not pass.
    VerificationFailed { message: String },
    /// The user gave up.
    UserAborted,
}

/// The reason a transition is refused because the current state is terminal.
pub open spec fn reason_terminal() -> Seq<char> {
    "current state is terminal"@
}

/// The reason a transition is refused because it targets the current state.
pub open spec fn reason_same() -> Seq<char> {
    "target equals current state"@
}

/// The reason a transition is refused because the table does not allow it.
pub open spec fn reason_not_allowed() -> Seq<char> {
    "transition not allowed"@
}

/// The refusal reason for a move from `from` to `to`, if it is refused.
pub open spec fn spec_refusal(from: AgentState, to: AgentState) -> Option<Seq<char>> {
    if spec_is_terminal(from) {
        Some(reason_terminal())
    } else if from == to {
        Some(reason_same())
    } else if !spec_is_legal(from, to) {
        Some(reason_not_allowed())
    } else {
        None
    }
}

/// A refused transition.
#[derive(Debug, PartialEq, Eq)]
pub struct TransitionError {
    /// The state the move started from.
    pub from: AgentState,
    /// The state the move aimed at.
    pub to: AgentState,
    /// Why the move was refused.
    pub reason: &'static str,
}

impl TransitionError {
    /// The text of the error: `invalid transition from A to B: reason`.
    pub open spec fn spec_text(self) -> Seq<char> {
        "invalid transition from "@ + self.from.spec_name() + " to "@ + self.to.spec_name()
            + ": "@ + self.reason@
    }

    /// The text of the error: `invalid transition from A to B: reason`.
    pub fn to_text(&self) -> (s: String)
        ensures
            s@ == self.spec_text(),
    {
        let mut s = String::from_str("invalid transition from ");
        s.append(self.from.name());
        s.append(" to ");
        s.append(self.to.name());
        s.append(": ");
        s.append(self.reason);
        s
    }

    /// The agent error that stands for this refusal.
    pub fn into_agent_error(self) -> (e: AgentError)
        ensures
            e == AgentError::InvalidTransition(e->InvalidTransition_0),
            e->InvalidTransition_0@ == self.spec_text(),
    {
        AgentError::InvalidTransition(self.to_text())
    }
}

/// The state machine: the current state and the last refusal.
#[derive(Debug, Clone)]
pub struct StateMachine {
    state: AgentState,
    last_reason: Option<&'static str>,
}

impl StateMachine {
    /// The current state.
    pub closed spec fn spec_state(self) -> AgentState {
        self.state
    }

    /// The reason of the last refused transition, if the last attempt was refused.
    pub closed spec fn spec_last_reason(self) -> Option<Seq<char>> {
        match self.last_reason {
            Some(r) => Some(r@),
            None => None,
        }
    }

    /// A state machine in `Ready`, with no refusal recorded.
    pub fn new() -> (m: Self)
        ensures
            m.spec_state() == AgentState::Ready,
            m.spec_last_reason() is None,
    {
        StateMachine { state: AgentState::Ready, last_reason: None }
    }

    /// The current state.
    pub fn state(&self) -> (s: AgentState)
        ensures
            s == self.spec_state(),
    {
        self.state
    }

    /// The reason of the most recent refused transition, if any.
    pub fn last_rejection(&self) -> (r: Option<&'static str>)
        ensures
            match r {
                Some(x) => self.spec_last_reason() == Some(x@),
                None => self.spec_last_reason() is None,
            },
    {
        self.last_reason
    }

    /// Tries to move to `to`.
    ///
    /// A terminal state refuses every move; a move to the current state is
    /// refused; otherwise the transition table decides. On success the state
    /// becomes `to` and the recorded refusal is cleared; on refusal the state is
    /// unchanged and the reason is recorded.
    pub fn transition(&mut self, to: AgentState) -> (r: Result<(), TransitionError>)
        ensures
            match spec_refusal(old(self).spec_state(), to) {
                None => {
                    &&& r is Ok
                    &&& final(self).spec_state() == to
                    &&& final(self).spec_last_reason() is None
                },
                Some(reason) => {
                    &&& r is Err
                    &&& r->Err_0.from == old(self).spec_state()
                    &&& r->Err_0.to == to
                    &&& r->Err_0.reason@ == reason
                    &&& final(self).spec_state() == old(self).spec_state()
                    &&& final(self).spec_last_reason() == Some(reason)
                },
            },
    {
        if self.state.is_terminal() {
            let reason: &'static str = "current state is terminal";
            proof {
                reveal_strlit("current state is terminal");
            }
            self.last_reason = Some(reason);
            return Err(TransitionError { from: self.state, to, reason });
        }
        if self.state == to {
            let reason: &'static str = "target equals current state";
            proof {
                reveal_strlit("target equals current state");
            }
            self.last_reason = Some(reason);
            return Err(TransitionError { from: self.state, to, reason });
        }
        if !is_legal(self.state, to) {
            let reason: &'static str = "transition not allowed";
            proof {
                reveal_strlit("transition not allowed");
            }
            self.last_reason = Some(reason);
            return Err(TransitionError { from: self.state, to, reason });
        }
        self.last_reason = None;
        self.state = to;
        Ok(())
    }
}

/// Once the machine is in a terminal state, every transition is refused and
/// the state stays the same: `Completed` and `Failed` are absorbing.
pub proof fn law_terminal_states_absorb(from: AgentState, to: AgentState)
    requires
        spec_is_terminal(from),
    ensures
        spec_refusal(from, to) == Some(reason_terminal()),
{
}

/// A transition that is accepted always follows the transition table, and
/// no accepted transition leaves a terminal state or stays in place.
pub proof fn law_accepted_moves_are_legal(from: AgentState, to: AgentState)
    requires
        spec_refusal(from, to) is None,
    ensures
        spec_is_legal(from, to),
        !spec_is_terminal(from),
        from != to,
{
}

/// From every live state but `Ready`, one legal move reaches `Failed`.
pub proof fn law_failed_reachable_from_every_live_state(s: AgentState)
    requires
        !spec_is_terminal(s),
        s != AgentState::Ready,
    ensures
        spec_is_legal(s, AgentState::Failed),
{
}

/// Whether `p` is a walk of accepted transitions: every move from `p[i]` to
/// `p[i + 1]` is one that `transition` accepts.
pub open spec fn accepted_walk(p: Seq<AgentState>) -> bool {
    forall|i: int| 0 <= i < p.len() - 1 ==> #[trigger] spec_refusal(p[i], p[i + 1]) is None
}

/// Whether `to` can be reached from `from` by accepted transitions.
pub open spec fn reachable(from: AgentState, to: AgentState) -> bool {
    exists|p: Seq<AgentState>| #[trigger] accepted_walk(p) && p.len() >= 1 && p[0] == from && p.last() == to
}

/// Every state but `Ready` can be reached from `Ready` by accepted moves, and
/// from every live state both outcomes, `Completed` and `Failed`, can still
/// be reached.
pub proof fn law_every_state_reachable_and_both_outcomes_open(s: AgentState)
    ensures
        s != AgentState::Ready ==> reachable(AgentState::Ready, s),
        !spec_is_terminal(s) ==> reachable(s, AgentState::Completed) && reachable(s, AgentState::Failed),
{
    let (r, p, x, w, v, c, f) = (
        AgentState::Ready,
        AgentState::Planning,
        AgentState::ExecutingTool,
        AgentState::WaitingForUser,
        AgentState::Verifying,
        AgentState::Completed,
        AgentState::Failed,
    );
    let walks: Seq<Seq<AgentState>> = seq![
        seq![r, p], seq![r, p, x], seq![r, p, w], seq![r, p, v], seq![r, p, v, c], seq![r, p, f],
        seq![p, v, c], seq![x, p, v, c], seq![w, p, v, c], seq![v, c],
        seq![p, f], seq![x, f], seq![w, f], seq![v, f],
    ];
    assert forall|k: int| 0 <= k < walks.len() implies #[trigger] accepted_walk(walks[k]) by {
        let q = walks[k];
        assert forall|i: int| 0 <= i < q.len() - 1 implies #[trigger] spec_refusal(q[i], q[i + 1]) is None by {}
    }
    let pick = |k: int| walks[k];
    if s != r {
        let k: int = match s {
            AgentState::Planning => 0,
            AgentState::ExecutingTool => 1,
            AgentState::WaitingForUser => 2,
            AgentState::Verifying => 3,
            AgentState::Completed => 4,
            _ => 5,
        };
        assert(accepted_walk(pick(k)));
    }
    if !spec_is_terminal(s) {
        let kc: int = match s {
            AgentState::Ready => 4,
            AgentState::Planning => 6,
            AgentState::ExecutingTool => 7,
            AgentState::WaitingForUser => 8,
            _ => 9,
        };
        let kf: int = match s {
            AgentState::Ready => 5,
            AgentState::Planning => 10,
            AgentState::ExecutingTool => 11,
            AgentState::WaitingForUser => 12,
            _ => 13,
        };
        assert(accepted_walk(pick(kc)));
        assert(accepted_walk(pick(kf)));
    }
}

/// The order of work the machine enforces: a run starts by planning, a tool
/// runs and a question is asked only from planning, verification starts only
/// from planning, and the task completes only after verification.
pub proof fn law_moves_follow_the_plan(from: AgentState, to: AgentState)
    requires
        spec_refusal(from, to) is None,
    ensures
        from == AgentState::Ready ==> to == AgentState::Planning,
        to == AgentState::ExecutingTool || to == AgentState::WaitingForUser || to == AgentState::Verifying
            ==> from == AgentState::Planning,
        to == AgentState::Completed ==> from == AgentState::Verifying,
        to != AgentState::Ready,
{
}


/// Per-task budget.
#[derive(Debug, Clone, PartialEq, Eq)]
pub struct Budget {
    /// The most loop turns.
    pub max_turns: u32,
    /// The most context bytes.
    pub max_context_bytes: u64,
}

impl Budget {
    /// A budget; both limits must be positive.
    ///
    /// Fails with `InvalidRequest` when `max_turns` is zero, and otherwise when
    /// `max_context_bytes` is zero.
    pub fn new(max_turns: u32, max_context_bytes: u64) -> (r: Result<Self, AgentError>)
        ensures
            max_turns == 0 ==> (r matches Err(AgentError::InvalidRequest(m))
                && m@ == "budget max_turns must be greater than zero"@),
            max_turns != 0 && max_context_bytes == 0 ==> (r matches Err(AgentError::InvalidRequest(m))
                && m@ == "budget max_context_bytes must be greater than zero"@),
            max_turns != 0 && max_context_bytes != 0 ==> (r matches Ok(b)
                && b.max_turns == max_turns && b.max_context_bytes == max_context_bytes),
    {
        if max_turns == 0 {
            return Err(AgentError::InvalidRequest(
                String::from_str("budget max_turns must be greater than zero"),
            ));
        }
        if max_context_bytes == 0 {
            return Err(AgentError::InvalidRequest(
                String::from_str("budget max_context_bytes must be greater than zero"),
            ));
        }
        Ok(Budget { max_turns, max_context_bytes })
    }

    /// Checks that `used` turns still fit: fails with `BudgetExhausted` when
    /// `used >= max_turns`, with the text `used U turns, max M`.
    pub fn check_turns(&self, used: u32) -> (r: Result<(), AgentError>)
        ensures
            used < self.max_turns ==> r is Ok,
            used >= self.max_turns ==> (r matches Err(AgentError::BudgetExhausted(m))
                && m@ == "used "@ + decimal(used as nat) + " turns, max "@ + decimal(
                self.max_turns as nat,
            )),
    {
        if used >= self.max_turns {
            let mut m = String::from_str("used ");
            push_decimal(&mut m, used as u128);
            m.append(" turns, max ");
            push_decimal(&mut m, self.max_turns as u128);
            Err(AgentError::BudgetExhausted(m))
        } else {
            Ok(())
        }
    }

    /// Checks that `used` context bytes still fit: fails with `BudgetExhausted`
    /// when `used > max_context_bytes`, with the text `used U bytes, max M`.
    pub fn check_context(&self, used: u64) -> (r: Result<(), AgentError>)
        ensures
            used <= self.max_context_bytes ==> r is Ok,
            used > self.max_context_bytes ==> (r matches Err(AgentError::BudgetExhausted(m))
                && m@ == "used "@ + decimal(used as nat) + " bytes, max "@ + decimal(
                self.max_context_bytes as nat,
            )),
    {
        if used > self.max_context_bytes {
            let mut m = String::from_str("used ");
            push_decimal(&mut m, used as u128);
            m.append(" bytes, max ");
            push_decimal(&mut m, self.max_context_bytes as u128);
            Err(AgentError::BudgetExhausted(m))
        } else {
            Ok(())
        }
    }
}

} // verus!
