use vstd::prelude::*;

verus! {

/// A point in time as seconds since the Unix epoch plus the nanoseconds
/// past that second.
#[derive(Clone, Copy, Debug, PartialEq, Eq, Structural)]
pub struct Timestamp {
    pub secs: i64,
    pub nanos: u32,
}

/// The current UTC time, read through `chrono::Utc::now`.
///
/// `Utc::now` takes the system time as a duration since the Unix epoch
/// (it panics on a clock set before 1970) and keeps that duration's whole
/// seconds and its sub-second nanoseconds, which a duration holds below one
/// billion. That is all this contract claims: which instant comes back is
/// up to the clock.
#[verifier::external_body]
pub(crate) fn utc_now() -> (now: Timestamp)
    ensures
        0 <= now.secs,
        now.nanos < 1_000_000_000,
{
    let now = chrono::Utc::now();
    Timestamp { secs: now.timestamp(), nanos: now.timestamp_subsec_nanos() }
}

} // verus!
