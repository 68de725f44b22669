//! The age beyond which the platform no longer deletes messages in bulk.

use vstd::prelude::*;

verus! {

/// Fourteen days in milliseconds: messages older than this are deleted one
/// by one.
pub const BULK_AGE_LIMIT_MS: i64 = 1_209_600_000;

/// The instant fourteen days before `now`, or the earliest instant there is
/// where that lies before it.
pub open spec fn threshold_at(now: i64) -> i64 {
    if now - BULK_AGE_LIMIT_MS >= i64::MIN {
        (now - BULK_AGE_LIMIT_MS) as i64
    } else {
        i64::MIN
    }
}

/// The age threshold as of `now`, both in milliseconds since the Unix epoch.
pub fn age_threshold(now: i64) -> (threshold: i64)
    ensures
        threshold == threshold_at(now),
{
    if now >= i64::MIN + BULK_AGE_LIMIT_MS {
        now - BULK_AGE_LIMIT_MS
    } else {
        i64::MIN
    }
}

/// Reads the clock: `chrono::Utc::now()`, taken as milliseconds since the
/// Unix epoch by `DateTime::timestamp_millis`. Nothing is claimed of the
/// value. The call panics on a machine whose clock stands before 1970.
#[verifier::external_body]
fn utc_now_millis() -> i64 {
    chrono::Utc::now().timestamp_millis()
}

/// The age threshold as of this moment. Each call reads the clock anew, so
/// that a deletion that runs long classifies every page against the time at
/// which the page is looked at.
pub fn two_weeks_ago() -> (threshold: i64)
    ensures
        exists|now: i64| threshold == threshold_at(now),
{
    let now = utc_now_millis();
    age_threshold(now)
}

} // verus!
