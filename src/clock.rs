use vstd::prelude::*;
use crate::number::{decimal_u64, parse_u64};

verus! {

/// Seconds in one day.
pub const SECONDS_PER_DAY: u64 = 86400;

/// A point in time: whole seconds since the Unix epoch and the nanoseconds
/// within that second.
#[derive(Clone, Copy, Debug, PartialEq, Eq, Structural)]
pub struct Timestamp {
    pub secs: i64,
    pub nanos: u32,
}

/// `a` lies strictly before `b`.
pub open spec fn before(a: Timestamp, b: Timestamp) -> bool {
    a.secs < b.secs || (a.secs == b.secs && a.nanos < b.nanos)
}

impl Timestamp {
    pub fn new(secs: i64, nanos: u32) -> (r: Timestamp)
        ensures
            r.secs == secs,
            r.nanos == nanos,
    {
        Timestamp { secs, nanos }
    }

    /// Whether this instant lies strictly before `other`.
    pub fn is_before(&self, other: &Timestamp) -> (r: bool)
        ensures
            r == before(*self, *other),
    {
        self.secs < other.secs || (self.secs == other.secs && self.nanos < other.nanos)
    }
}


/// Why a count of days was refused.
#[derive(Clone, Copy, Debug, PartialEq, Eq, Structural)]
pub enum DurationError {
    /// The text is not a whole number of days.
    Invalid,
    /// The number of days is too large to count in seconds.
    TooLarge,
}

/// The number of seconds in `arg` days, `arg` being written in decimal.
pub fn parse_duration(arg: &str) -> (r: Result<u64, DurationError>)
    ensures
        decimal_u64(arg@) is None ==> r == Err::<u64, DurationError>(DurationError::Invalid),
        decimal_u64(arg@) matches Some(days) ==> {
            if days * SECONDS_PER_DAY <= u64::MAX {
                r == Ok::<u64, DurationError>((days * SECONDS_PER_DAY) as u64)
            } else {
                r == Err::<u64, DurationError>(DurationError::TooLarge)
            }
        },
{
    match parse_u64(arg) {
        None => Err(DurationError::Invalid),
        Some(days) => match days.checked_mul(SECONDS_PER_DAY) {
            None => Err(DurationError::TooLarge),
            Some(secs) => Ok(secs),
        },
    }
}

/// The cutoff of a cleanup: the instant `window_secs` seconds before `now`.
pub fn cutoff_from(now: Timestamp, window_secs: u64) -> (r: Option<Timestamp>)
    ensures
        r matches Some(t) <==> now.secs - window_secs >= i64::MIN,
        r matches Some(t) ==> t.secs == now.secs - window_secs && t.nanos == now.nanos,
{
    let floor: i128 = i64::MIN as i128;
    let secs: i128 = now.secs as i128 - window_secs as i128;
    if secs < floor {
        None
    } else {
        Some(Timestamp { secs: secs as i64, nanos: now.nanos })
    }
}

} // verus!
