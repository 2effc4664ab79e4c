//! First-run onboarding: the provider catalog, the keychain conventions and
//! the wizard's state machine. The terminal and the keychain are driven by
//! the application.

use vstd::prelude::*;

pub mod keychain;
pub mod providers;
pub mod tui;

verus! {

/// Whether the onboarding wizard has to run first. It never has to yet: the
/// wizard runs only when asked for (`aura setup`).
pub fn needs_onboarding() -> (b: bool)
    ensures
        !b,
{
    false
}

} // verus!
