//! Civil dates and UTC instants, and what the library asks of `chrono`.

use chrono::{NaiveDate, TimeZone, Timelike, Utc};
use vstd::prelude::*;

verus! {

/// Seconds in one day.
pub const SECONDS_PER_DAY: i64 = 86_400;

/// Timestamp of the first second that `chrono` can represent in UTC,
/// the start of the year -262143.
pub const MIN_TIMESTAMP: i64 = -8_334_601_228_800;

/// Timestamp of the last second that `chrono` can represent in UTC,
/// the end of the year 262142.
pub const MAX_TIMESTAMP: i64 = 8_210_266_876_799;

/// Whether a count of seconds since 1970-01-01T00:00:00Z names an instant
/// that `chrono` can represent.
pub open spec fn timestamp_in_range(secs: int) -> bool {
    MIN_TIMESTAMP <= secs <= MAX_TIMESTAMP
}

/// Second of the day, from 0 to 86399, of a timestamp.
pub open spec fn spec_second_of_day(secs: int) -> int {
    secs % (SECONDS_PER_DAY as int)
}

/// A calendar date in the proleptic Gregorian calendar, without a time of day.
///
/// Any three numbers can be written down; whether they name a day is for
/// `chrono` to say when the date is used.
#[derive(Clone, Copy, Debug, PartialEq, Eq)]
pub struct CivilDate {
    pub year: i32,
    pub month: u32,
    pub day: u32,
}

/// A point in time in UTC, to the second, within the range of `chrono`.
#[derive(Clone, Copy, Debug, PartialEq, Eq)]
pub struct UtcInstant {
    secs: i64,
}

/// The timestamp of 00:00:00 UTC on the day that `year`, `month` and `day`
/// name, as `chrono` computes it; `None` where they name no day.
pub uninterp spec fn midnight_timestamp(year: i32, month: u32, day: u32) -> Option<i64>;

/// Calls `NaiveDate::from_ymd_opt`, `NaiveDate::and_hms_opt` with midnight,
/// `NaiveDateTime::and_local_timezone` with `Utc` and `DateTime::timestamp`.
/// The contract names the outcome, a function of the three numbers, and says
/// one thing of it: `chrono` counts 86400 seconds to every day, so the
/// timestamp of a midnight is a whole number of days.
#[verifier::external_body]
fn chrono_midnight(year: i32, month: u32, day: u32) -> (r: Option<i64>)
    ensures
        r == midnight_timestamp(year, month, day),
        r matches Some(secs) ==> spec_second_of_day(secs as int) == 0,
{
    let midnight = NaiveDate::from_ymd_opt(year, month, day)?.and_hms_opt(0, 0, 0)?;
    Some(midnight.and_local_timezone(Utc).single()?.timestamp())
}

/// Calls `TimeZone::timestamp_opt` on `Utc` with no nanoseconds, then
/// `DateTime::timestamp`. `chrono` accepts exactly the seconds whose day lies
/// in the years -262143 to 262142, and the instant it builds has the timestamp
/// it was built from.
#[verifier::external_body]
fn chrono_instant(secs: i64) -> (r: Option<i64>)
    ensures
        r == (if timestamp_in_range(secs as int) {
            Some(secs)
        } else {
            None
        }),
{
    match Utc.timestamp_opt(secs, 0).single() {
        Some(instant) => Some(instant.timestamp()),
        None => None,
    }
}

/// Calls `Timelike::hour` on the time of day of the UTC instant with the
/// timestamp `secs`: the whole hours in its second of the day.
#[verifier::external_body]
fn chrono_hour(secs: i64) -> (h: u32)
    requires
        timestamp_in_range(secs as int),
    ensures
        h == spec_second_of_day(secs as int) / 3600,
{
    Utc.timestamp_opt(secs, 0).unwrap().time().hour()
}

/// Calls `Timelike::minute` on the time of day of the UTC instant with the
/// timestamp `secs`: the whole minutes in its second of the day, past the hour.
#[verifier::external_body]
fn chrono_minute(secs: i64) -> (m: u32)
    requires
        timestamp_in_range(secs as int),
    ensures
        m == (spec_second_of_day(secs as int) / 60) % 60,
{
    Utc.timestamp_opt(secs, 0).unwrap().time().minute()
}

/// Calls `Timelike::second` on the time of day of the UTC instant with the
/// timestamp `secs`: its second of the day, past the minute.
#[verifier::external_body]
fn chrono_second(secs: i64) -> (s: u32)
    requires
        timestamp_in_range(secs as int),
    ensures
        s == spec_second_of_day(secs as int) % 60,
{
    Utc.timestamp_opt(secs, 0).unwrap().time().second()
}

impl CivilDate {
    /// The instant at which the day starts in UTC; `None` where the three
    /// numbers name no day that `chrono` knows.
    pub fn midnight(&self) -> (r: Option<UtcInstant>)
        ensures
            match midnight_timestamp(self.year, self.month, self.day) {
                Some(secs) => {
                    &&& r is Some <==> timestamp_in_range(secs as int)
                    &&& r matches Some(instant) ==> instant@ == secs
                    &&& spec_second_of_day(secs as int) == 0
                },
                None => r is None,
            },
    {
        match chrono_midnight(self.year, self.month, self.day) {
            Some(secs) => UtcInstant::from_timestamp(secs),
            None => None,
        }
    }
}

impl View for UtcInstant {
    type V = int;

    /// Seconds since 1970-01-01T00:00:00Z.
    closed spec fn view(&self) -> int {
        self.secs as int
    }
}

impl UtcInstant {
    #[verifier::type_invariant]
    closed spec fn within_range(self) -> bool {
        timestamp_in_range(self.secs as int)
    }

    /// The instant `secs` seconds after 1970-01-01T00:00:00Z; `None` outside
    /// the range of `chrono`.
    pub fn from_timestamp(secs: i64) -> (r: Option<UtcInstant>)
        ensures
            r is Some <==> timestamp_in_range(secs as int),
            r matches Some(instant) ==> instant@ == secs,
    {
        match chrono_instant(secs) {
            Some(accepted) => Some(UtcInstant { secs: accepted }),
            None => None,
        }
    }

    /// Seconds since 1970-01-01T00:00:00Z.
    pub fn timestamp(&self) -> (secs: i64)
        ensures
            secs == self@,
            timestamp_in_range(secs as int),
    {
        proof {
            use_type_invariant(self);
        }
        self.secs
    }

    /// Second of the day, from the hour, minute and second that `chrono`
    /// reads off the instant.
    pub fn second_of_day(&self) -> (s: u32)
        ensures
            s == spec_second_of_day(self@),
            s < SECONDS_PER_DAY,
    {
        proof {
            use_type_invariant(self);
        }
        let hour = chrono_hour(self.secs);
        let minute = chrono_minute(self.secs);
        let second = chrono_second(self.secs);
        hour * 3600 + minute * 60 + second
    }
}

} // verus!
