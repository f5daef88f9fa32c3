//! Windows FILETIME timestamps and their civil-calendar reading.
//!
//! NTFS stores every timestamp as a count of 100-nanosecond ticks since
//! 1601-01-01 00:00:00 UTC. The library keeps that raw count and derives
//! the Unix epoch reading by verified arithmetic; the split into calendar
//! year, month and day is delegated to chrono.

use vstd::prelude::*;

use chrono::Datelike;
use chrono::Timelike;

verus! {

/// Seconds between 1601-01-01 and 1970-01-01.
pub const FILETIME_UNIX_DIFF_SECS: u64 = 11_644_473_600;

/// A Windows FILETIME: 100-nanosecond ticks since 1601-01-01 UTC.
#[derive(Debug, Clone, Copy, PartialEq, Eq, Structural)]
pub struct Timestamp {
    pub filetime: u64,
}

/// A civil date and time in UTC.
#[derive(Debug, Clone, Copy, PartialEq, Eq, Structural)]
pub struct CivilDateTime {
    pub year: i32,
    pub month: u8,
    pub day: u8,
    pub hour: u8,
    pub minute: u8,
    pub second: u8,
    pub nanosecond: u32,
}

/// The civil date and time of a Unix timestamp.
pub uninterp spec fn civil_of(secs: int, nanos: int) -> CivilDateTime;

/// Relies on chrono's `DateTime::<Utc>::from_timestamp` and its `Datelike`
/// and `Timelike` accessors. The civil reading is a function of the epoch
/// seconds and nanoseconds alone. `from_timestamp` documents `None` only
/// for dates more than about 262,000 years from the common era, so every
/// second count a 64-bit FILETIME can reach (about year 60,056 at most)
/// yields `Some`; the accessors document the month, day, hour, minute,
/// second and nanosecond ranges stated here.
#[verifier::external_body]
fn civil_from_unix(secs: i64, nsecs: u32) -> (r: Option<CivilDateTime>)
    requires
        nsecs < 1_000_000_000,
    ensures
        -11_644_473_600 <= secs <= 1_844_674_407_370 ==> r is Some,
        r matches Some(c) ==> c == civil_of(secs as int, nsecs as int) && 1 <= c.month <= 12 && 1
            <= c.day <= 31 && c.hour < 24 && c.minute < 60 && c.second < 60 && c.nanosecond
            < 1_000_000_000,
{
    match chrono::DateTime::<chrono::Utc>::from_timestamp(secs, nsecs) {
        Some(dt) => Some(
            CivilDateTime {
                year: dt.year(),
                month: dt.month() as u8,
                day: dt.day() as u8,
                hour: dt.hour() as u8,
                minute: dt.minute() as u8,
                second: dt.second() as u8,
                nanosecond: dt.nanosecond(),
            },
        ),
        None => None,
    }
}

impl Timestamp {
    /// The whole seconds since the Unix epoch (negative before 1970).
    pub open spec fn spec_unix_seconds(self) -> int {
        self.filetime / 10_000_000 - 11_644_473_600
    }

    /// The fractional part in nanoseconds.
    pub open spec fn spec_subsec_nanos(self) -> int {
        (self.filetime % 10_000_000) * 100
    }

    /// Splits the FILETIME into Unix seconds and nanoseconds.
    pub fn to_unix(&self) -> (r: (i64, u32))
        ensures
            r.0 == self.spec_unix_seconds(),
            r.1 == self.spec_subsec_nanos(),
            r.1 < 1_000_000_000,
            -11_644_473_600 <= r.0 <= 1_844_674_407_370,
    {
        proof {
            assert(self.filetime / 10_000_000 <= u64::MAX / 10_000_000) by (nonlinear_arith)
                requires
                    self.filetime <= u64::MAX,
            ;
        }
        let q = self.filetime / 10_000_000;
        let secs = q as i64 - 11_644_473_600;
        let nanos = (self.filetime % 10_000_000) as u32 * 100;
        (secs, nanos)
    }

    /// The civil reading of the timestamp, which exists for every 64-bit
    /// FILETIME.
    pub fn to_civil(&self) -> (r: CivilDateTime)
        ensures
            r == civil_of(self.spec_unix_seconds(), self.spec_subsec_nanos()),
            1 <= r.month <= 12,
            1 <= r.day <= 31,
            r.hour < 24,
            r.minute < 60,
            r.second < 60,
            r.nanosecond < 1_000_000_000,
    {
        let (secs, nanos) = self.to_unix();
        match civil_from_unix(secs, nanos) {
            Some(c) => c,
            None => {
                proof {
                    assert(false);
                }
                CivilDateTime {
                    year: 1970,
                    month: 1,
                    day: 1,
                    hour: 0,
                    minute: 0,
                    second: 0,
                    nanosecond: 0,
                }
            },
        }
    }
}

} // verus!
