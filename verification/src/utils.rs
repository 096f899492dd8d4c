//! The clock.

use crate::error::Error;
use vstd::prelude::*;

verus! {

/// What is made of a reading of the clock: the time as it was read, or
/// `Config` where the clock gave none because it stands before the epoch.
pub fn clock_outcome(reading: Option<(u64, u32)>) -> (r: Result<(u64, u32), Error>)
    ensures
        match reading {
            Some(time) => r == Ok::<(u64, u32), Error>(time),
            None => r matches Err(Error::Config(_)),
        },
{
    match reading {
        Some(time) => Ok(time),
        None => Err(Error::Config("system clock is before the Unix epoch".to_owned())),
    }
}

/// The whole seconds of a time, or the failure as it came.
pub fn whole_seconds(time: Result<(u64, u32), Error>) -> (r: Result<u64, Error>)
    ensures
        match time {
            Ok(read) => r == Ok::<u64, Error>(read.0),
            Err(failure) => r == Err::<u64, Error>(failure),
        },
{
    match time {
        Ok((secs, _)) => Ok(secs),
        Err(e) => Err(e),
    }
}

/// The current time as seconds since the Unix epoch and nanoseconds within
/// the second; `Config` where the system clock stands before the epoch.
pub fn get_current_unix_time() -> (r: Result<(u64, u32), Error>)
    ensures
        r matches Err(e) ==> e matches Error::Config(_),
{
    clock_outcome(read_clock())
}

/// The current time in seconds since the Unix epoch; `Config` where the
/// system clock stands before the epoch.
pub fn get_current_unix_time_secs() -> (r: Result<u64, Error>)
    ensures
        r matches Err(e) ==> e matches Error::Config(_),
{
    whole_seconds(get_current_unix_time())
}

/// `SystemTime::now` of the standard library, as the time elapsed since the
/// epoch. Nothing is promised of the value: it is the time.
#[verifier::external_body]
fn read_clock() -> Option<(u64, u32)> {
    match std::time::SystemTime::now().duration_since(std::time::UNIX_EPOCH) {
        Ok(elapsed) => Some((elapsed.as_secs(), elapsed.subsec_nanos())),
        Err(_) => None,
    }
}

} // verus!
