//! Sunrise, sunset and solar altitude in verified fixed-point arithmetic.
//!
//! Every real quantity is an `i64` holding billionths of its unit: angles in
//! billionths of a degree, day counts in billionths of a day, elevations in
//! billionths of a metre. Dates and instants are plain values of this crate;
//! `chrono` does the calendar arithmetic behind them.

pub mod calendar;
pub mod fixed;
pub mod julian;
pub mod solar;
pub mod trig;

use vstd::prelude::*;
use crate::calendar::{
    midnight_timestamp, spec_second_of_day, timestamp_in_range, CivilDate, UtcInstant,
};
use crate::calendar::SECONDS_PER_DAY;
use crate::fixed::{
    div_round, lemma_round_div, lemma_round_div_bound, lemma_round_div_monotonic, magnitude,
    round_div, SCALE,
};
use crate::julian::{
    lemma_day_of_midnight, spec_days_since_2000, spec_julian_from_timestamp,
    spec_timestamp_from_julian, JulianDate, JAN_2000, UNIX_EPOCH,
};
use crate::solar::{
    altitude_sine, hour_angle, lemma_cos_of_reduced, lemma_hour_angle_range,
    lemma_transit_near_mean_noon, local_hour_angle, right_ascension,
    solar_position, solar_transit, spec_altitude_sine, spec_declination, spec_ecliptic_longitude,
    spec_hour_angle_of_day, spec_local_hour_angle, spec_mean_anomaly, spec_mean_solar_time,
    spec_right_ascension, spec_transit_of_day, NoSunTimes,
};
use crate::trig::{asin_of_unit, spec_asin, QUARTER_TURN};

verus! {

/// Timestamps of sunrise and sunset on the day that starts at the timestamp
/// `start`, seen from the given latitude, longitude and elevation, or the
/// reason why there are none.
///
/// The hour angle of the events is laid off to both sides of solar transit,
/// and each event is the whole second nearest to its Julian Date.
pub open spec fn spec_sun_events(start: int, latitude: int, longitude: int, elevation: int)
    -> Result<(int, int), NoSunTimes> {
    let day = spec_days_since_2000(spec_julian_from_timestamp(start));
    match spec_hour_angle_of_day(day, latitude, longitude, elevation) {
        Err(reason) => Err(reason),
        Ok(angle) => {
            let transit = spec_transit_of_day(day, longitude);
            let rise = spec_timestamp_from_julian(transit - round_div(angle, 360));
            let set = spec_timestamp_from_julian(transit + round_div(angle, 360));
            if timestamp_in_range(rise) && timestamp_in_range(set) {
                Ok((rise, set))
            } else {
                Err(NoSunTimes::OutOfRange)
            }
        },
    }
}

/// Timestamps of sunrise and sunset on a day whose midnight `chrono` gave as
/// `midnight`; `None` where the date named no day or the day has no events.
pub open spec fn spec_sun_times(
    midnight: Option<i64>,
    latitude: int,
    longitude: int,
    elevation: int,
) -> Option<(int, int)> {
    match midnight {
        Some(start) => if timestamp_in_range(start as int) {
            match spec_sun_events(start as int, latitude, longitude, elevation) {
                Ok(events) => Some(events),
                Err(_) => None,
            }
        } else {
            None
        },
        None => None,
    }
}

/// Altitude of the sun above the horizon at the timestamp `secs`, seen from
/// the given latitude and longitude: the arcsine of
/// `sin(lat) sin(decl) + cos(lat) cos(decl) cos(local_hour_angle)`.
pub open spec fn spec_altitude(secs: int, latitude: int, longitude: int) -> int {
    let day = spec_days_since_2000(spec_julian_from_timestamp(secs));
    let mean_solar_time = spec_mean_solar_time(day, longitude);
    let ecliptic_longitude = spec_ecliptic_longitude(spec_mean_anomaly(mean_solar_time));
    let local_hour_angle = spec_local_hour_angle(
        mean_solar_time,
        spec_second_of_day(secs),
        longitude,
        spec_right_ascension(ecliptic_longitude),
    );
    spec_asin(
        spec_altitude_sine(latitude, spec_declination(ecliptic_longitude), local_hour_angle),
    )
}

/// Sunrise and sunset on the day that starts at `start_of_day`, 00:00:00 UTC
/// of the day in question, or the reason why there are none: a negative
/// elevation, a sun that does not cross the horizon that day, or an event
/// beyond the instants that can be represented.
pub fn sun_times_from_midnight(
    start_of_day: UtcInstant,
    latitude: i64,
    longitude: i64,
    elevation: i64,
) -> (r: Result<(UtcInstant, UtcInstant), NoSunTimes>)
    ensures
        match r {
            Ok((rise, set)) => spec_sun_events(
                start_of_day@,
                latitude as int,
                longitude as int,
                elevation as int,
            ) == Ok::<(int, int), NoSunTimes>((rise@, set@)),
            Err(reason) => spec_sun_events(
                start_of_day@,
                latitude as int,
                longitude as int,
                elevation as int,
            ) == Err::<(int, int), NoSunTimes>(reason),
        },
        r matches Ok((rise, set)) ==> rise@ <= set@ <= rise@ + SECONDS_PER_DAY + 1,
{
    proof {
        lemma_sunrise_before_sunset(
            start_of_day@,
            latitude as int,
            longitude as int,
            elevation as int,
        );
    }
    let day = JulianDate::from_utc_instant(start_of_day).days_since_2000();
    let position = solar_position(day, longitude);
    let angle = match hour_angle(latitude, position.declination, elevation) {
        Ok(angle) => angle,
        Err(reason) => {
            return Err(reason);
        },
    };
    let transit = solar_transit(position);
    proof {
        lemma_round_div_bound(angle as int, 360, 500_000_000);
    }
    let half_day: i64 = div_round(angle as i128, 360) as i64;
    let rise = JulianDate { nanodays: transit - half_day }.to_utc_instant();
    let set = JulianDate { nanodays: transit + half_day }.to_utc_instant();
    match (rise, set) {
        (Some(rise), Some(set)) => Ok((rise, set)),
        _ => Err(NoSunTimes::OutOfRange),
    }
}

/// Approximate sunrise and sunset in UTC on `date`, seen from `latitude` and
/// `longitude` in billionths of a degree at `elevation` billionths of a metre
/// above sea level.
///
/// `None` where the date names no day, the elevation is negative, or the sun
/// does not rise and set that day.
pub fn sun_times(date: CivilDate, latitude: i64, longitude: i64, elevation: i64) -> (r: Option<
    (UtcInstant, UtcInstant),
>)
    ensures
        match r {
            Some((rise, set)) => spec_sun_times(
                midnight_timestamp(date.year, date.month, date.day),
                latitude as int,
                longitude as int,
                elevation as int,
            ) == Some((rise@, set@)),
            None => spec_sun_times(
                midnight_timestamp(date.year, date.month, date.day),
                latitude as int,
                longitude as int,
                elevation as int,
            ) is None,
        },
        r matches Some((rise, set)) ==> rise@ <= set@ <= rise@ + SECONDS_PER_DAY + 1,
{
    match date.midnight() {
        Some(start_of_day) => match sun_times_from_midnight(
            start_of_day,
            latitude,
            longitude,
            elevation,
        ) {
            Ok(events) => Some(events),
            Err(_) => None,
        },
        None => None,
    }
}

/// Altitude of the sun above the horizon at `instant`, in billionths of a
/// degree, seen from `latitude` and `longitude` in billionths of a degree.
///
/// The altitude is geometric: neither refraction nor elevation enters it.
pub fn altitude(instant: UtcInstant, latitude: i64, longitude: i64) -> (r: i64)
    ensures
        r == spec_altitude(instant@, latitude as int, longitude as int),
        -QUARTER_TURN <= r <= QUARTER_TURN,
{
    let day = JulianDate::from_utc_instant(instant).days_since_2000();
    let position = solar_position(day, longitude);
    let hour_angle = local_hour_angle(
        position.mean_solar_time,
        instant.second_of_day(),
        longitude,
        right_ascension(position.ecliptic_longitude),
    );
    proof {
        lemma_cos_of_reduced(
            spec_local_hour_angle(
                position.mean_solar_time as int,
                spec_second_of_day(instant@),
                longitude as int,
                spec_right_ascension(position.ecliptic_longitude as int),
            ),
        );
    }
    asin_of_unit(altitude_sine(latitude, position.declination, hour_angle))
}

/// Sunrise is never after sunset, and sunset at most a day and a second
/// after sunrise.
pub proof fn lemma_sunrise_before_sunset(start: int, latitude: int, longitude: int, elevation: int)
    ensures
        spec_sun_events(start, latitude, longitude, elevation) matches Ok((rise, set)) ==> rise
            <= set <= rise + SECONDS_PER_DAY + 1,
{
    let day = spec_days_since_2000(spec_julian_from_timestamp(start));
    if let Ok(angle) = spec_hour_angle_of_day(day, latitude, longitude, elevation) {
        lemma_hour_angle_range(
            latitude,
            spec_declination(
                spec_ecliptic_longitude(spec_mean_anomaly(spec_mean_solar_time(day, longitude))),
            ),
            elevation,
        );
        lemma_round_div_bound(angle, 360, 500_000_000);
        let half_day = round_div(angle, 360);
        let transit = spec_transit_of_day(day, longitude);
        let early = (transit - half_day - UNIX_EPOCH) * SECONDS_PER_DAY;
        let late = (transit + half_day - UNIX_EPOCH) * SECONDS_PER_DAY;
        assert(early <= late <= early + 86_400_000_000_000) by (nonlinear_arith)
            requires
                early == (transit - half_day - UNIX_EPOCH) * SECONDS_PER_DAY,
                late == (transit + half_day - UNIX_EPOCH) * SECONDS_PER_DAY,
                SECONDS_PER_DAY == 86_400,
                0 <= half_day <= 500_000_000,
        ;
        lemma_round_div_monotonic(early, late, SCALE as int);
        lemma_round_div(early, SCALE as int);
        lemma_round_div(late, SCALE as int);
        let rise = round_div(early, SCALE as int);
        let set = round_div(late, SCALE as int);
        assert(set <= rise + 86_401) by (nonlinear_arith)
            requires
                late <= early + 86_400_000_000_000,
                -1_000_000_000 <= 2 * (rise * 1_000_000_000 - early) <= 1_000_000_000,
                -1_000_000_000 <= 2 * (set * 1_000_000_000 - late) <= 1_000_000_000,
        ;
    }
}

/// Where the sun rises and sets within the requested day, both events fall on
/// that day: for the day that starts at the timestamp `86400 * unix_day`, if
/// the longitude as a fraction of a turn and the hour angle of the events as a
/// fraction of a turn together stay below 0.487 days, sunrise and sunset lie
/// between that midnight and the next.
///
/// Rounding the day count up puts the Julian Date `2451545 + day` on the noon
/// of the requested day, and solar transit within 0.0122 days of the mean
/// noon of the longitude.
pub proof fn lemma_events_on_requested_day(
    unix_day: int,
    latitude: int,
    longitude: int,
    elevation: int,
)
    requires
        spec_sun_events(unix_day * SECONDS_PER_DAY, latitude, longitude, elevation) is Ok,
        spec_hour_angle_of_day(unix_day - 10_957, latitude, longitude, elevation) matches Ok(
            angle,
        ) ==> magnitude(round_div(longitude, 360)) + round_div(angle, 360) <= 487_000_000,
    ensures
        spec_sun_events(unix_day * SECONDS_PER_DAY, latitude, longitude, elevation) matches Ok(
            (rise, set),
        ) && unix_day * SECONDS_PER_DAY <= rise <= set < (unix_day + 1) * SECONDS_PER_DAY,
{
    let start = unix_day * SECONDS_PER_DAY;
    lemma_day_of_midnight(unix_day);
    lemma_sunrise_before_sunset(start, latitude, longitude, elevation);
    let day = unix_day - 10_957;
    let mean_solar_time = spec_mean_solar_time(day, longitude);
    let mean_anomaly = spec_mean_anomaly(mean_solar_time);
    let ecliptic_longitude = spec_ecliptic_longitude(mean_anomaly);
    let angle = spec_hour_angle_of_day(day, latitude, longitude, elevation)->Ok_0;
    lemma_hour_angle_range(latitude, spec_declination(ecliptic_longitude), elevation);
    lemma_round_div_bound(angle, 360, 500_000_000);
    lemma_transit_near_mean_noon(mean_solar_time, mean_anomaly, ecliptic_longitude);
    let half_day = round_div(angle, 360);
    let offset = round_div(longitude, 360);
    let transit = spec_transit_of_day(day, longitude);
    // Nanodays from the midnight of the requested day to each event.
    let to_rise = transit - half_day - UNIX_EPOCH - unix_day * SCALE;
    let to_set = transit + half_day - UNIX_EPOCH - unix_day * SCALE;
    assert(800_000 <= to_rise <= to_set <= 999_200_000) by (nonlinear_arith)
        requires
            to_rise == transit - half_day - UNIX_EPOCH - unix_day * SCALE,
            to_set == transit + half_day - UNIX_EPOCH - unix_day * SCALE,
            JAN_2000 + day * SCALE == unix_day * SCALE + UNIX_EPOCH + SCALE / 2,
            mean_solar_time == day * SCALE - offset,
            -12_200_000 <= transit - (JAN_2000 + mean_solar_time) <= 12_200_000,
            0 <= half_day,
            magnitude(offset) + half_day <= 487_000_000,
            SCALE == 1_000_000_000,
    ;
    let early = (transit - half_day - UNIX_EPOCH) * SECONDS_PER_DAY;
    let late = (transit + half_day - UNIX_EPOCH) * SECONDS_PER_DAY;
    assert(early == start * SCALE + to_rise * 86_400 && late == start * SCALE + to_set * 86_400)
        by (nonlinear_arith)
        requires
            early == (transit - half_day - UNIX_EPOCH) * SECONDS_PER_DAY,
            late == (transit + half_day - UNIX_EPOCH) * SECONDS_PER_DAY,
            to_rise == transit - half_day - UNIX_EPOCH - unix_day * SCALE,
            to_set == transit + half_day - UNIX_EPOCH - unix_day * SCALE,
            start == unix_day * SECONDS_PER_DAY,
            SECONDS_PER_DAY == 86_400,
    ;
    lemma_round_div(early, SCALE as int);
    lemma_round_div(late, SCALE as int);
    let rise = round_div(early, SCALE as int);
    let set = round_div(late, SCALE as int);
    assert(start <= rise && set < start + 86_400) by (nonlinear_arith)
        requires
            early == start * SCALE + to_rise * 86_400,
            late == start * SCALE + to_set * 86_400,
            800_000 <= to_rise,
            to_set <= 999_200_000,
            SCALE == 1_000_000_000,
            -1_000_000_000 <= 2 * (rise * 1_000_000_000 - early) <= 1_000_000_000,
            -1_000_000_000 <= 2 * (set * 1_000_000_000 - late) <= 1_000_000_000,
    ;
    assert((unix_day + 1) * SECONDS_PER_DAY == start + 86_400) by (nonlinear_arith)
        requires
            start == unix_day * SECONDS_PER_DAY,
            SECONDS_PER_DAY == 86_400,
    ;
}

} // verus!
