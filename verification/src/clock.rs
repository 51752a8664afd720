//! Points in time, and the clock that gives the current one.
use vstd::prelude::*;

verus! {

/// A point in time: whole seconds since the Unix epoch (UTC) and the
/// nanoseconds within that second.
#[derive(Clone, Copy, Debug)]
pub struct Timestamp {
    pub seconds: i64,
    pub nanos: u32,
}

/// The current time.
///
/// Calls `chrono::Utc::now` and reads its `timestamp` and
/// `timestamp_subsec_nanos`. The contract claims only that the nanoseconds
/// are below one second: `Utc::now` takes them from the system time's
/// sub-second part (on the web target, from milliseconds). Which time comes
/// back is whatever the system clock says.
#[verifier::external_body]
pub fn current_time() -> (t: Timestamp)
    ensures
        t.nanos < 1_000_000_000,
{
    let now = chrono::Utc::now();
    Timestamp { seconds: now.timestamp(), nanos: now.timestamp_subsec_nanos() }
}

} // verus!
