//! Julian Dates: a continuous count of days, here in billionths of a day.

use vstd::prelude::*;
use crate::calendar::{timestamp_in_range, UtcInstant, SECONDS_PER_DAY};
use crate::fixed::{
    ceil_div, div_floor, div_round, lemma_ceil_div, lemma_round_div, round_div, SCALE,
};

verus! {

/// Julian Date of 1970-01-01T00:00:00Z, 2440587.5, in billionths of a day.
pub const UNIX_EPOCH: i64 = 2_440_587_500_000_000;

/// Julian Date of 2000-01-01T12:00:00Z, 2451545.0, in billionths of a day.
pub const JAN_2000: i64 = 2_451_545_000_000_000;

/// The fixed leap-second correction, 0.0008 days, in billionths of a day.
pub const LEAP_SECONDS: i64 = 800_000;

/// Largest magnitude of a Julian Date on which the day count since 2000 is
/// computed.
pub const JULIAN_LIMIT: i64 = 1_000_000_000_000_000_000;

/// A Julian Date, or a difference of two, in billionths of a day.
#[derive(Clone, Copy, Debug, PartialEq, Eq)]
pub struct JulianDate {
    pub nanodays: i64,
}

/// Julian Date in billionths of a day of the instant `secs` seconds after
/// 1970-01-01T00:00:00Z: `secs / 86400 + 2440587.5`, to the nearest billionth.
pub open spec fn spec_julian_from_timestamp(secs: int) -> int {
    round_div(secs * SCALE, SECONDS_PER_DAY as int) + UNIX_EPOCH
}

/// Timestamp of the whole second nearest to a Julian Date:
/// `(julian - 2440587.5) * 86400`, rounded.
pub open spec fn spec_timestamp_from_julian(nanodays: int) -> int {
    round_div((nanodays - UNIX_EPOCH) * SECONDS_PER_DAY, SCALE as int)
}

/// Whole days from the Julian Date 2451545.0 less the leap-second correction,
/// rounded up.
pub open spec fn spec_days_since_2000(nanodays: int) -> int {
    ceil_div(nanodays - JAN_2000 + LEAP_SECONDS, SCALE as int)
}

impl JulianDate {
    /// The Julian Date of an instant.
    pub fn from_utc_instant(instant: UtcInstant) -> (jd: JulianDate)
        ensures
            jd.nanodays == spec_julian_from_timestamp(instant@),
            -100_000_000_000_000_000 <= jd.nanodays <= 100_000_000_000_000_000,
    {
        let secs = instant.timestamp();
        let days = div_round(secs as i128 * SCALE as i128, SECONDS_PER_DAY as i128);
        proof {
            lemma_round_div(secs * SCALE, SECONDS_PER_DAY as int);
        }
        JulianDate { nanodays: (days + UNIX_EPOCH as i128) as i64 }
    }

    /// The instant of the whole second nearest to this Julian Date; `None`
    /// where that second lies outside the range of `chrono`.
    pub fn to_utc_instant(self) -> (r: Option<UtcInstant>)
        ensures
            r is Some <==> timestamp_in_range(spec_timestamp_from_julian(self.nanodays as int)),
            r matches Some(instant) ==> instant@ == spec_timestamp_from_julian(
                self.nanodays as int,
            ),
    {
        let days: i128 = self.nanodays as i128 - UNIX_EPOCH as i128;
        assert(-0x1_0000_0000_0000_0000 * 86_400 <= days * SECONDS_PER_DAY
            <= 0x1_0000_0000_0000_0000 * 86_400) by (nonlinear_arith)
            requires
                -0x1_0000_0000_0000_0000 <= days <= 0x1_0000_0000_0000_0000,
                SECONDS_PER_DAY == 86_400,
        ;
        let elapsed: i128 = days * SECONDS_PER_DAY as i128;
        let secs = div_round(elapsed, SCALE as i128);
        proof {
            lemma_round_div(elapsed as int, SCALE as int);
            assert(-0x4000_0000_0000_0000 <= secs <= 0x4000_0000_0000_0000) by (nonlinear_arith)
                requires
                    -0x1_0000_0000_0000_0000 * 86_400 <= elapsed <= 0x1_0000_0000_0000_0000
                        * 86_400,
                    -1_000_000_000 <= 2 * (secs * 1_000_000_000 - elapsed) <= 1_000_000_000,
            ;
        }
        UtcInstant::from_timestamp(secs as i64)
    }

    /// The smallest whole number of days that is not less than this date.
    pub fn ceil_days(self) -> (days: i64)
        ensures
            days == ceil_div(self.nanodays as int, SCALE as int),
    {
        let floor = div_floor(-(self.nanodays as i128), SCALE as i128);
        proof {
            lemma_ceil_div(self.nanodays as int, SCALE as int);
        }
        (-floor) as i64
    }

    /// The sum of two Julian Dates.
    pub fn add(self, rhs: JulianDate) -> (sum: JulianDate)
        requires
            i64::MIN <= self.nanodays + rhs.nanodays <= i64::MAX,
        ensures
            sum.nanodays == self.nanodays + rhs.nanodays,
    {
        JulianDate { nanodays: self.nanodays + rhs.nanodays }
    }

    /// The difference of two Julian Dates.
    pub fn sub(self, rhs: JulianDate) -> (difference: JulianDate)
        requires
            i64::MIN <= self.nanodays - rhs.nanodays <= i64::MAX,
        ensures
            difference.nanodays == self.nanodays - rhs.nanodays,
    {
        JulianDate { nanodays: self.nanodays - rhs.nanodays }
    }

    /// Whole days since noon on 2000-01-01, the leap-second correction added
    /// and the sum rounded up.
    pub fn days_since_2000(self) -> (days: i64)
        requires
            -JULIAN_LIMIT <= self.nanodays <= JULIAN_LIMIT,
        ensures
            days == spec_days_since_2000(self.nanodays as int),
            (days - 1) * 1_000_000_000 < self.nanodays - JAN_2000 + LEAP_SECONDS <= days
                * 1_000_000_000,
    {
        let epoch = JulianDate { nanodays: JAN_2000 };
        let leap = JulianDate { nanodays: LEAP_SECONDS };
        self.sub(epoch).add(leap).ceil_days()
    }
}

/// Converting a timestamp to a Julian Date and back gives the timestamp.
pub proof fn lemma_julian_round_trip(secs: int)
    ensures
        spec_timestamp_from_julian(spec_julian_from_timestamp(secs)) == secs,
{
    let days = round_div(secs * SCALE, SECONDS_PER_DAY as int);
    lemma_round_div(secs * SCALE, SECONDS_PER_DAY as int);
    lemma_round_div(days * SECONDS_PER_DAY, SCALE as int);
    let back = round_div(days * SECONDS_PER_DAY, SCALE as int);
    assert(back == secs) by (nonlinear_arith)
        requires
            -86_400 <= 2 * (days * 86_400 - secs * 1_000_000_000) <= 86_400,
            -1_000_000_000 <= 2 * (back * 1_000_000_000 - days * 86_400) <= 1_000_000_000,
    ;
}

/// The day that starts at the timestamp `86400 * unix_day` has the Julian Date
/// `unix_day + 2440587.5` at its start, is day `unix_day - 10957` since 2000,
/// and the Julian Date `2451545` plus that count is its noon.
pub proof fn lemma_day_of_midnight(unix_day: int)
    ensures
        spec_julian_from_timestamp(unix_day * SECONDS_PER_DAY) == unix_day * SCALE + UNIX_EPOCH,
        spec_days_since_2000(spec_julian_from_timestamp(unix_day * SECONDS_PER_DAY)) == unix_day
            - 10_957,
        JAN_2000 + (unix_day - 10_957) * SCALE == spec_julian_from_timestamp(
            unix_day * SECONDS_PER_DAY,
        ) + SCALE / 2,
{
    let start = unix_day * SECONDS_PER_DAY;
    let days = round_div(start * SCALE, SECONDS_PER_DAY as int);
    lemma_round_div(start * SCALE, SECONDS_PER_DAY as int);
    assert(days == unix_day * SCALE) by (nonlinear_arith)
        requires
            start == unix_day * 86_400,
            SCALE == 1_000_000_000,
            -86_400 <= 2 * (days * 86_400 - start * SCALE) <= 86_400,
    ;
    let julian = days + UNIX_EPOCH;
    let count = spec_days_since_2000(julian);
    lemma_ceil_div(julian - JAN_2000 + LEAP_SECONDS, SCALE as int);
    assert(count == unix_day - 10_957) by (nonlinear_arith)
        requires
            julian == unix_day * SCALE + 2_440_587_500_000_000,
            SCALE == 1_000_000_000,
            (count - 1) * SCALE < julian - 2_451_545_000_000_000 + 800_000 <= count * SCALE,
    ;
    assert((unix_day - 10_957) * SCALE == unix_day * SCALE - 10_957_000_000_000) by (nonlinear_arith)
        requires
            SCALE == 1_000_000_000,
    ;
}

} // verus!
