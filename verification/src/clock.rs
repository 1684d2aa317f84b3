//! Wall-clock access and session-expiry arithmetic.
//!
//! Times are seconds since the Unix epoch. The clock itself is read through
//! one trusted wrapper; everything computed from a time takes it as an
//! argument, so callers and tests can fix the clock.
use vstd::prelude::*;

verus! {

/// Seconds in one day.
pub const DAY_SECONDS: i64 = 86400;

/// The expiry a session started at `now` runs to: one day later, saturating
/// at the largest representable time.
pub open spec fn spec_day_after(now: i64) -> i64 {
    if now <= i64::MAX - DAY_SECONDS {
        (now + DAY_SECONDS) as i64
    } else {
        i64::MAX
    }
}

/// Relies on chrono's `Utc::now`: the current wall-clock time, as seconds
/// since the Unix epoch. Nothing is assumed of the value.
#[verifier::external_body]
pub(crate) fn now_ts() -> i64 {
    chrono::Utc::now().timestamp()
}

/// One day after `now`, saturating.
pub fn one_day_from_now(now: i64) -> (r: i64)
    ensures
        r == spec_day_after(now),
{
    if now <= i64::MAX - DAY_SECONDS {
        now + DAY_SECONDS
    } else {
        i64::MAX
    }
}

} // verus!
