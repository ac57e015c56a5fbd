//! Wall-clock access.
//!
//! The core never advances anything on a timer; it only stamps stage and
//! turn start times, which polling callers compare with the current time.

use vstd::prelude::*;

verus! {

/// Relies on `std::time::SystemTime::now` and
/// `Duration::as_secs`: the current wall-clock time in whole seconds since
/// the Unix epoch, or zero if the clock reads before the epoch.
#[verifier::external_body]
pub fn now_secs() -> u64 {
    std::time::SystemTime::now()
        .duration_since(std::time::UNIX_EPOCH)
        .unwrap_or_default()
        .as_secs()
}

} // verus!
