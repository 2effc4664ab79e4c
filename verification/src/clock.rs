//! The system clock.

use vstd::prelude::*;

verus! {

/// Nanoseconds since the Unix epoch (`SystemTime::now().duration_since(UNIX_EPOCH)`,
/// zero when the clock reads before the epoch). Nothing is promised of the value.
#[verifier::external_body]
pub(crate) fn now_unix_nanos() -> u128 {
    std::time::SystemTime::now().duration_since(std::time::UNIX_EPOCH).unwrap_or_default().as_nanos()
}

/// Whole seconds since the Unix epoch (`SystemTime::now().duration_since(UNIX_EPOCH)`,
/// zero when the clock reads before the epoch). Nothing is promised of the value.
#[verifier::external_body]
pub(crate) fn now_unix_secs() -> u64 {
    std::time::SystemTime::now().duration_since(std::time::UNIX_EPOCH).unwrap_or_default().as_secs()
}

} // verus!
