//! Reading the wall clock.

use vstd::prelude::*;

verus! {

/// Relies on std::time::SystemTime::now and duration_since: reads the wall
/// clock as whole seconds since the Unix epoch, negative for an instant
/// before it; a value outside the representable range saturates. No branch
/// can panic. The value depends on the environment, so nothing is promised
/// of it; callers state what holds for every instant.
#[verifier::external_body]
pub(crate) fn now_seconds() -> i64 {
    match std::time::SystemTime::now().duration_since(std::time::UNIX_EPOCH) {
        Ok(since) => i64::try_from(since.as_secs()).unwrap_or(i64::MAX),
        Err(before) => i64::try_from(before.duration().as_secs()).map_or(i64::MIN, |v| -v),
    }
}

} // verus!
