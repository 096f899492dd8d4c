//! Instants and spans of time.
//!
//! An instant is counted from the Unix epoch, in seconds and nanoseconds.
//! Instants are read from text by the `chrono` crate.

use crate::error::Error;
use crate::utils::get_current_unix_time;
use vstd::prelude::*;

verus! {

/// The number of nanoseconds in a second.
pub const NANOS_PER_SEC: i128 = 1_000_000_000;

/// An instant: `secs` seconds and `nanos` nanoseconds after the Unix epoch.
#[derive(Debug, Clone, Copy, PartialEq, Eq)]
pub struct Timestamp {
    pub secs: i64,
    pub nanos: u32,
}

/// A span of time, which may be negative: `secs` seconds and `nanos`
/// nanoseconds.
#[derive(Debug, Clone, Copy, PartialEq, Eq)]
pub struct TimeDelta {
    pub secs: i64,
    pub nanos: u32,
}

impl Timestamp {
    /// The instant in nanoseconds after the epoch.
    pub open spec fn total_nanos(self) -> int {
        self.secs * NANOS_PER_SEC + self.nanos
    }

    /// The instant `secs` seconds and `nanos` nanoseconds after the epoch.
    pub fn new(secs: i64, nanos: u32) -> (t: Timestamp)
        ensures
            t.secs == secs,
            t.nanos == nanos,
    {
        Timestamp { secs, nanos }
    }

    /// The instant that a reading of the clock stands for; `Config` where
    /// the seconds are beyond what an instant can count.
    pub fn from_unix_time(secs: u64, nanos: u32) -> (r: Result<Timestamp, Error>)
        ensures
            match r {
                Ok(t) => t.secs == secs && t.nanos == nanos,
                Err(e) => e matches Error::Config(_) && secs > i64::MAX,
            },
    {
        if secs <= 0x7fff_ffff_ffff_ffff {
            Ok(Timestamp { secs: secs as i64, nanos })
        } else {
            Err(Error::Config("system clock is out of range".to_owned()))
        }
    }

    /// The current time by the system clock, which is never an instant
    /// before the epoch; `Config` where the clock stands before the epoch
    /// or beyond what an instant can count.
    pub fn now() -> (r: Result<Timestamp, Error>)
        ensures
            match r {
                Ok(t) => t.secs >= 0,
                Err(e) => e matches Error::Config(_),
            },
    {
        match get_current_unix_time() {
            Ok((secs, nanos)) => Timestamp::from_unix_time(secs, nanos),
            Err(e) => Err(e),
        }
    }

    /// Whether this instant is no later than `now` plus `within`.
    pub fn is_within(&self, now: &Timestamp, within: &TimeDelta) -> (b: bool)
        ensures
            b == (self.total_nanos() <= now.total_nanos() + within.total_nanos()),
    {
        let end = (self.secs as i128) * NANOS_PER_SEC + (self.nanos as i128);
        let from = (now.secs as i128) * NANOS_PER_SEC + (now.nanos as i128);
        let span = (within.secs as i128) * NANOS_PER_SEC + (within.nanos as i128);
        end <= from + span
    }

    /// Reads an instant from text in the form of RFC 3339, such as
    /// `2024-12-29T22:38:10Z`.
    pub fn parse_from_rfc3339(s: &str) -> (r: Option<Timestamp>)
        ensures
            match rfc3339_instant(s@) {
                Some((secs, nanos)) => r matches Some(t) && t.secs == secs && t.nanos == nanos,
                None => r is None,
            },
    {
        parse_rfc3339_outside(s)
    }
}

impl TimeDelta {
    /// The span in nanoseconds.
    pub open spec fn total_nanos(self) -> int {
        self.secs * NANOS_PER_SEC + self.nanos
    }

    /// A span of whole seconds.
    pub fn seconds(seconds: i64) -> (d: TimeDelta)
        ensures
            d.secs == seconds,
            d.nanos == 0,
    {
        TimeDelta { secs: seconds, nanos: 0 }
    }

    /// A span of whole hours.
    pub fn hours(hours: i64) -> (d: TimeDelta)
        requires
            i64::MIN <= hours * 3600 <= i64::MAX,
        ensures
            d.secs == hours * 3600,
            d.nanos == 0,
    {
        TimeDelta { secs: hours * 3600, nanos: 0 }
    }

    /// A span of whole days.
    pub fn days(days: i64) -> (d: TimeDelta)
        requires
            i64::MIN <= days * 86_400 <= i64::MAX,
        ensures
            d.secs == days * 86_400,
            d.nanos == 0,
    {
        TimeDelta { secs: days * 86_400, nanos: 0 }
    }
}

/// The instant that `chrono` reads from a text in the form of RFC 3339, as
/// seconds after the epoch and nanoseconds within the second; `None` where
/// the text is not of that form.
pub uninterp spec fn rfc3339_instant(s: Seq<char>) -> Option<(int, int)>;

/// `chrono::DateTime::parse_from_rfc3339`, with the instant taken by
/// `timestamp` and `timestamp_subsec_nanos`.
#[verifier::external_body]
fn parse_rfc3339_outside(s: &str) -> (r: Option<Timestamp>)
    ensures
        match rfc3339_instant(s@) {
            Some((secs, nanos)) => r matches Some(t) && t.secs == secs && t.nanos == nanos,
            None => r is None,
        },
{
    match chrono::DateTime::parse_from_rfc3339(s) {
        Ok(dt) => Some(Timestamp { secs: dt.timestamp(), nanos: dt.timestamp_subsec_nanos() }),
        Err(_) => None,
    }
}

} // verus!
