//! Keychain conventions for API keys.
//!
//! The service is the provider's `keychain_service` (such as `aura-deepseek`);
//! the account is always [`ACCOUNT`]. The application reads and writes the
//! system's credential store.

use vstd::prelude::*;

use crate::error::AgentError;

verus! {

/// The keychain account, the same for every provider.
pub const ACCOUNT: &'static str = "aura";

/// The error that a failed keychain operation becomes; `detail` is the
/// credential store's own message.
pub fn keychain_failure(detail: &str) -> (e: AgentError)
    ensures
        e matches AgentError::ToolFailed(m) && m@ == "keychain: "@ + detail@,
{
    let mut m = String::from_str("keychain: ");
    m.append(detail);
    AgentError::ToolFailed(m)
}

} // verus!
