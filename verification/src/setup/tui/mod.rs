//! The onboarding wizard's terminal interface: the state machine lives here;
//! drawing and reading keys belong to the application.

use vstd::prelude::*;

use crate::error::AgentError;

pub mod app;
pub mod keys;

verus! {

/// The standard output handle, carried through unread.
#[verifier::external_type_specification]
#[verifier::external_body]
pub struct ExStdout(std::io::Stdout);

/// Starts the wizard on the terminal. Not available yet: always
/// `NotImplemented`.
pub fn run(_stdout: &mut std::io::Stdout) -> (r: Result<(), AgentError>)
    ensures
        r matches Err(AgentError::NotImplemented(m)) && m@ == not_wired_message(),
{
    Err(AgentError::NotImplemented(String::from_str(
        "setup::tui::run: ratatui skeleton wired in slice 1.5; first provider lands in slice 3",
    )))
}

/// The text of the `NotImplemented` error of [`run`].
pub open spec fn not_wired_message() -> Seq<char> {
    "setup::tui::run: ratatui skeleton wired in slice 1.5; first provider lands in slice 3"@
}

} // verus!
