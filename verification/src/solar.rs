//! Position of the sun for a day and a longitude, and the angles that follow
//! from it: declination, the hour angle of sunrise and sunset, and the Julian
//! Date of solar transit.

use vstd::arithmetic::div_mod::lemma_mod_twice;
use vstd::prelude::*;
use crate::fixed::{
    div_round, isqrt, lemma_mul_bound, lemma_round_div_bound, mul_wide, rem_floor, round_div,
    sqrt_floor, SCALE,
};
use crate::julian::JAN_2000;
use crate::trig::{
    acos_of_unit, asin_of_unit, atan2_deg, cos_deg, lemma_acos_range, lemma_sin_range, sin_deg,
    spec_acos, spec_asin, spec_atan2, spec_cos, spec_sin, FULL_TURN, HALF_TURN, QUARTER_TURN, UNIT,
};

verus! {

/// Solar mean anomaly at the epoch, 357.5291 degrees.
pub const MEAN_ANOMALY_AT_EPOCH: i64 = 357_529_100_000;

/// Growth of the solar mean anomaly, 0.98560028 degrees a day, in
/// hundred-millionths of a degree.
pub const MEAN_ANOMALY_RATE: i64 = 98_560_028;

/// Argument of perihelion of the Earth, 102.9372 degrees.
pub const ARGUMENT_OF_PERIHELION: i64 = 102_937_200_000;

/// Obliquity of the ecliptic, 23.44 degrees.
pub const OBLIQUITY: i64 = 23_440_000_000;

/// Altitude of the centre of the sun at sunrise and sunset, -0.833 degrees.
pub const HORIZON: i64 = -833_000_000;

/// Largest magnitude of a day count that the model works on.
pub const DAY_LIMIT: i64 = 200_000_000;

/// Why a day has no sunrise and sunset to report.
#[derive(Clone, Copy, Debug, PartialEq, Eq)]
pub enum NoSunTimes {
    /// The elevation is negative.
    InvalidElevation,
    /// The sun stays above or below the horizon all day.
    NoSunriseOrSunset,
    /// An event falls outside the instants that can be represented.
    OutOfRange,
}

/// The intermediate angles of the model, in billionths of a degree, and the
/// mean solar time in billionths of a day.
#[derive(Clone, Copy, Debug, PartialEq, Eq)]
pub struct SolarPosition {
    pub mean_solar_time: i64,
    pub mean_anomaly: i64,
    pub ecliptic_longitude: i64,
    pub declination: i64,
}

/// Mean solar time: the day count less the longitude as a fraction of a turn.
pub open spec fn spec_mean_solar_time(day: int, longitude: int) -> int {
    day * SCALE - round_div(longitude, 360)
}

/// Solar mean anomaly, `357.5291 + 0.98560028 * mean_solar_time` reduced to
/// one turn.
pub open spec fn spec_mean_anomaly(mean_solar_time: int) -> int {
    (MEAN_ANOMALY_AT_EPOCH + round_div(MEAN_ANOMALY_RATE * mean_solar_time, 100_000_000)) % (
    FULL_TURN as int)
}

/// Equation of the centre,
/// `1.9148 sin(M) + 0.0200 sin(2M) + 0.0003 sin(3M)` degrees.
pub open spec fn spec_equation_of_center(anomaly: int) -> int {
    round_div(
        19_148 * spec_sin(anomaly) + 200 * spec_sin(2 * anomaly) + 3 * spec_sin(3 * anomaly),
        10_000,
    )
}

/// Ecliptic longitude, `M + C + 180 + 102.9372` degrees reduced to one turn.
pub open spec fn spec_ecliptic_longitude(anomaly: int) -> int {
    (anomaly + spec_equation_of_center(anomaly) + HALF_TURN + ARGUMENT_OF_PERIHELION) % (
    FULL_TURN as int)
}

/// Declination of the sun, `asin(sin(L) * sin(23.44))`.
pub open spec fn spec_declination(ecliptic_longitude: int) -> int {
    spec_asin(round_div(spec_sin(ecliptic_longitude) * spec_sin(OBLIQUITY as int), SCALE as int))
}

impl SolarPosition {
    /// Whether this is the position of the sun on the day `day` at the
    /// longitude `longitude`: each angle follows from the one before it.
    pub open spec fn is_position_at(self, day: int, longitude: int) -> bool {
        &&& self.mean_solar_time == spec_mean_solar_time(day, longitude)
        &&& self.mean_anomaly == spec_mean_anomaly(self.mean_solar_time as int)
        &&& self.ecliptic_longitude == spec_ecliptic_longitude(self.mean_anomaly as int)
        &&& self.declination == spec_declination(self.ecliptic_longitude as int)
    }
}

/// Dip of the horizon seen from `elevation` billionths of a metre up,
/// `-2.076 * sqrt(elevation) / 60` degrees.
pub open spec fn spec_elevation_correction(elevation: int) -> int {
    -round_div(2_076 * sqrt_floor(elevation * SCALE), 60_000)
}

/// Cosine of the hour angle of sunrise and sunset,
/// `(sin(-0.833 + correction) - sin(lat) sin(decl)) / (cos(lat) cos(decl))`,
/// in billionths; `None` where the denominator is zero.
pub open spec fn spec_hour_angle_cosine(latitude: int, declination: int, elevation: int) -> Option<
    int,
> {
    let numerator = spec_sin(HORIZON + spec_elevation_correction(elevation)) * SCALE - spec_sin(
        latitude,
    ) * spec_sin(declination);
    let denominator = spec_cos(latitude) * spec_cos(declination);
    if denominator > 0 {
        Some(round_div(numerator * SCALE, denominator))
    } else if denominator < 0 {
        Some(round_div(-numerator * SCALE, -denominator))
    } else {
        None
    }
}

/// Hour angle of sunrise and sunset, between 0 and 180 degrees, or the reason
/// why there is none.
pub open spec fn spec_hour_angle(latitude: int, declination: int, elevation: int) -> Result<
    int,
    NoSunTimes,
> {
    if elevation < 0 {
        Err(NoSunTimes::InvalidElevation)
    } else {
        match spec_hour_angle_cosine(latitude, declination, elevation) {
            Some(cosine) => if -SCALE <= cosine <= SCALE {
                Ok(spec_acos(cosine))
            } else {
                Err(NoSunTimes::NoSunriseOrSunset)
            },
            None => Err(NoSunTimes::NoSunriseOrSunset),
        }
    }
}

/// Julian Date of solar transit,
/// `2451545 + mean_solar_time + 0.0053 sin(M) - 0.0069 sin(2L)`.
pub open spec fn spec_solar_transit(
    mean_solar_time: int,
    mean_anomaly: int,
    ecliptic_longitude: int,
) -> int {
    JAN_2000 + mean_solar_time + round_div(53 * spec_sin(mean_anomaly), 10_000) - round_div(
        69 * spec_sin(2 * ecliptic_longitude),
        10_000,
    )
}

/// Julian Date of solar transit on the day `day` at the longitude `longitude`.
pub open spec fn spec_transit_of_day(day: int, longitude: int) -> int {
    let mean_solar_time = spec_mean_solar_time(day, longitude);
    let mean_anomaly = spec_mean_anomaly(mean_solar_time);
    spec_solar_transit(mean_solar_time, mean_anomaly, spec_ecliptic_longitude(mean_anomaly))
}

/// Hour angle of sunrise and sunset on the day `day`, or the reason why there
/// is none.
pub open spec fn spec_hour_angle_of_day(day: int, latitude: int, longitude: int, elevation: int)
    -> Result<int, NoSunTimes> {
    spec_hour_angle(
        latitude,
        spec_declination(
            spec_ecliptic_longitude(spec_mean_anomaly(spec_mean_solar_time(day, longitude))),
        ),
        elevation,
    )
}

/// An hour angle of sunrise and sunset lies between 0 and 180 degrees.
pub proof fn lemma_hour_angle_range(latitude: int, declination: int, elevation: int)
    ensures
        spec_hour_angle(latitude, declination, elevation) matches Ok(angle) ==> 0 <= angle
            <= HALF_TURN,
{
    if elevation >= 0 {
        if let Some(cosine) = spec_hour_angle_cosine(latitude, declination, elevation) {
            if -SCALE <= cosine <= SCALE {
                lemma_acos_range(cosine);
            }
        }
    }
}

/// Solar transit is never more than 0.0122 days from mean solar noon, the
/// Julian Date `2451545 + mean_solar_time`.
pub proof fn lemma_transit_near_mean_noon(
    mean_solar_time: int,
    mean_anomaly: int,
    ecliptic_longitude: int,
)
    ensures
        -12_200_000 <= spec_solar_transit(mean_solar_time, mean_anomaly, ecliptic_longitude) - (
        JAN_2000 + mean_solar_time) <= 12_200_000,
{
    lemma_sin_range(mean_anomaly);
    lemma_sin_range(2 * ecliptic_longitude);
    lemma_round_div_bound(53 * spec_sin(mean_anomaly), 10_000, 5_300_000);
    lemma_round_div_bound(69 * spec_sin(2 * ecliptic_longitude), 10_000, 6_900_000);
}

/// From one day to the next at a fixed longitude, solar transit advances by
/// one day give or take 0.0244 days.
pub proof fn lemma_transit_advances_daily(day: int, longitude: int)
    ensures
        SCALE - 24_400_000 <= spec_transit_of_day(day + 1, longitude) - spec_transit_of_day(
            day,
            longitude,
        ) <= SCALE + 24_400_000,
{
    let today = spec_mean_solar_time(day, longitude);
    let tomorrow = spec_mean_solar_time(day + 1, longitude);
    assert(tomorrow == today + SCALE) by (nonlinear_arith)
        requires
            today == day * SCALE - round_div(longitude, 360),
            tomorrow == (day + 1) * SCALE - round_div(longitude, 360),
    ;
    let anomaly_today = spec_mean_anomaly(today);
    let anomaly_tomorrow = spec_mean_anomaly(tomorrow);
    lemma_transit_near_mean_noon(today, anomaly_today, spec_ecliptic_longitude(anomaly_today));
    lemma_transit_near_mean_noon(
        tomorrow,
        anomaly_tomorrow,
        spec_ecliptic_longitude(anomaly_tomorrow),
    );
}

/// Right ascension of the sun, `atan2(sin(L) cos(23.44), cos(L))`.
pub open spec fn spec_right_ascension(ecliptic_longitude: int) -> int {
    spec_atan2(
        spec_sin(ecliptic_longitude) * spec_cos(OBLIQUITY as int),
        spec_cos(ecliptic_longitude) * SCALE,
    )
}

/// Local hour angle of the sun: the mean solar time taken as degrees, plus 15
/// degrees for each hour of the day and the longitude, less the right
/// ascension.
pub open spec fn spec_local_hour_angle(
    mean_solar_time: int,
    second_of_day: int,
    longitude: int,
    right_ascension: int,
) -> int {
    mean_solar_time + round_div(second_of_day * SCALE, 240) + longitude - right_ascension
}

/// Value between -1 and 1 nearest to `x`, in billionths.
pub open spec fn spec_clamp_unit(x: int) -> int {
    if x < -SCALE {
        -SCALE as int
    } else if x > SCALE {
        SCALE as int
    } else {
        x
    }
}

/// Sine of the altitude of the sun,
/// `sin(lat) sin(decl) + cos(lat) cos(decl) cos(hour_angle)`, kept between
/// -1 and 1.
pub open spec fn spec_altitude_sine(latitude: int, declination: int, hour_angle: int) -> int {
    spec_clamp_unit(
        round_div(
            spec_sin(latitude) * spec_sin(declination) * SCALE + spec_cos(latitude) * spec_cos(
                declination,
            ) * spec_cos(hour_angle),
            UNIT as int,
        ),
    )
}

/// The cosine of an angle is that of the angle reduced to one turn.
pub proof fn lemma_cos_of_reduced(a: int)
    ensures
        spec_cos(a % (FULL_TURN as int)) == spec_cos(a),
{
    lemma_mod_twice(a, FULL_TURN as int);
}

/// Product of two values that are at most one in magnitude.
fn mul_unit(a: i64, b: i64) -> (p: i128)
    requires
        -SCALE <= a <= SCALE,
        -SCALE <= b <= SCALE,
    ensures
        p == a * b,
        -UNIT <= p <= UNIT,
{
    assert(-1_000_000_000_000_000_000 <= a * b <= 1_000_000_000_000_000_000) by (nonlinear_arith)
        requires
            -1_000_000_000 <= a <= 1_000_000_000,
            -1_000_000_000 <= b <= 1_000_000_000,
    ;
    a as i128 * b as i128
}

/// Mean solar time in billionths of a day.
pub fn mean_solar_time(day: i64, longitude: i64) -> (r: i64)
    requires
        -DAY_LIMIT <= day <= DAY_LIMIT,
    ensures
        r == spec_mean_solar_time(day as int, longitude as int),
        -230_000_000_000_000_000 <= r <= 230_000_000_000_000_000,
{
    let whole = mul_wide(day, SCALE);
    let offset = div_round(longitude as i128, 360);
    proof {
        lemma_mul_bound(day as int, SCALE as int, 200_000_000, 1_000_000_000);
        lemma_round_div_bound(longitude as int, 360, 25_700_000_000_000_000);
    }
    (whole - offset) as i64
}

/// Solar mean anomaly, at least 0 and less than 360 degrees.
pub fn mean_anomaly(mean_solar_time: i64) -> (r: i64)
    ensures
        r == spec_mean_anomaly(mean_solar_time as int),
        0 <= r < FULL_TURN,
{
    let product = mul_wide(MEAN_ANOMALY_RATE, mean_solar_time);
    proof {
        lemma_mul_bound(
            MEAN_ANOMALY_RATE as int,
            mean_solar_time as int,
            98_560_028,
            0x8000_0000_0000_0000,
        );
        lemma_round_div_bound(product as int, 100_000_000, 0x8000_0000_0000_0000);
    }
    let advance = div_round(product, 100_000_000);
    rem_floor(MEAN_ANOMALY_AT_EPOCH as i128 + advance, FULL_TURN as i128) as i64
}

/// Equation of the centre for a mean anomaly within one turn.
pub fn equation_of_center(anomaly: i64) -> (r: i64)
    requires
        0 <= anomaly < FULL_TURN,
    ensures
        r == spec_equation_of_center(anomaly as int),
        -1_935_100_000 <= r <= 1_935_100_000,
{
    let s1 = sin_deg(anomaly) as i128;
    let s2 = sin_deg(2 * anomaly) as i128;
    let s3 = sin_deg(3 * anomaly) as i128;
    proof {
        lemma_round_div_bound(19_148 * s1 + 200 * s2 + 3 * s3, 10_000, 1_935_100_000);
    }
    div_round(19_148 * s1 + 200 * s2 + 3 * s3, 10_000) as i64
}

/// Ecliptic longitude, at least 0 and less than 360 degrees.
pub fn ecliptic_longitude(anomaly: i64) -> (r: i64)
    requires
        0 <= anomaly < FULL_TURN,
    ensures
        r == spec_ecliptic_longitude(anomaly as int),
        0 <= r < FULL_TURN,
{
    let center = equation_of_center(anomaly);
    let sum: i128 = anomaly as i128 + center as i128 + HALF_TURN as i128
        + ARGUMENT_OF_PERIHELION as i128;
    rem_floor(sum, FULL_TURN as i128) as i64
}

/// Declination of the sun, between -90 and 90 degrees.
pub fn declination(ecliptic_longitude: i64) -> (r: i64)
    ensures
        r == spec_declination(ecliptic_longitude as int),
        -QUARTER_TURN <= r <= QUARTER_TURN,
{
    let product = mul_unit(sin_deg(ecliptic_longitude), sin_deg(OBLIQUITY));
    proof {
        lemma_round_div_bound(product as int, SCALE as int, 1_000_000_000);
    }
    let sine = div_round(product, SCALE as i128);
    asin_of_unit(sine as i64)
}

/// The position of the sun on a day at a longitude.
pub fn solar_position(day: i64, longitude: i64) -> (position: SolarPosition)
    requires
        -DAY_LIMIT <= day <= DAY_LIMIT,
    ensures
        position.is_position_at(day as int, longitude as int),
        -230_000_000_000_000_000 <= position.mean_solar_time <= 230_000_000_000_000_000,
        0 <= position.mean_anomaly < FULL_TURN,
        0 <= position.ecliptic_longitude < FULL_TURN,
        -QUARTER_TURN <= position.declination <= QUARTER_TURN,
{
    let mean_solar_time = mean_solar_time(day, longitude);
    let mean_anomaly = mean_anomaly(mean_solar_time);
    let ecliptic_longitude = ecliptic_longitude(mean_anomaly);
    SolarPosition {
        mean_solar_time,
        mean_anomaly,
        ecliptic_longitude,
        declination: declination(ecliptic_longitude),
    }
}

/// Dip of the horizon, never positive, for an elevation that is not negative.
pub fn elevation_correction(elevation: i64) -> (r: i64)
    requires
        0 <= elevation,
    ensures
        r == spec_elevation_correction(elevation as int),
        -4_000_000_000_000 <= r <= 0,
{
    let square = mul_wide(elevation, SCALE);
    assert(0 <= square <= 0x8000_0000_0000_0000 * 1_000_000_000) by (nonlinear_arith)
        requires
            square == elevation * SCALE,
            0 <= elevation <= 0x8000_0000_0000_0000,
            SCALE == 1_000_000_000,
    ;
    let root = isqrt(square as u128);
    assert(root <= 100_000_000_000_000) by (nonlinear_arith)
        requires
            0 <= root,
            root * root <= square,
            square <= 0x8000_0000_0000_0000 * 1_000_000_000,
    ;
    proof {
        lemma_round_div_bound(2_076 * root, 60_000, 4_000_000_000_000);
    }
    (-div_round(2_076 * (root as i128), 60_000)) as i64
}

/// Hour angle of sunrise and sunset for a latitude, a declination and an
/// elevation, or the reason why there is none.
pub fn hour_angle(latitude: i64, declination: i64, elevation: i64) -> (r: Result<i64, NoSunTimes>)
    ensures
        match r {
            Ok(angle) => spec_hour_angle(latitude as int, declination as int, elevation as int)
                == Ok::<int, NoSunTimes>(angle as int) && 0 <= angle <= HALF_TURN,
            Err(reason) => spec_hour_angle(latitude as int, declination as int, elevation as int)
                == Err::<int, NoSunTimes>(reason),
        },
{
    if elevation < 0 {
        return Err(NoSunTimes::InvalidElevation);
    }
    let rim = sin_deg(HORIZON + elevation_correction(elevation));
    let numerator: i64 = (mul_unit(rim, SCALE) - mul_unit(sin_deg(latitude), sin_deg(declination)))
        as i64;
    let denominator: i128 = mul_unit(cos_deg(latitude), cos_deg(declination));
    if denominator == 0 {
        return Err(NoSunTimes::NoSunriseOrSunset);
    }
    proof {
        lemma_mul_bound(
            numerator as int,
            SCALE as int,
            2_000_000_000_000_000_000,
            1_000_000_000,
        );
        lemma_mul_bound(
            -numerator as int,
            SCALE as int,
            2_000_000_000_000_000_000,
            1_000_000_000,
        );
    }
    let cosine = if denominator > 0 {
        div_round(mul_wide(numerator, SCALE), denominator)
    } else {
        div_round(mul_wide(-numerator, SCALE), -denominator)
    };
    if cosine < -(SCALE as i128) || cosine > SCALE as i128 {
        return Err(NoSunTimes::NoSunriseOrSunset);
    }
    Ok(acos_of_unit(cosine as i64))
}

/// Julian Date of solar transit in billionths of a day.
pub fn solar_transit(position: SolarPosition) -> (r: i64)
    requires
        -230_000_000_000_000_000 <= position.mean_solar_time <= 230_000_000_000_000_000,
        0 <= position.ecliptic_longitude < FULL_TURN,
    ensures
        r == spec_solar_transit(
            position.mean_solar_time as int,
            position.mean_anomaly as int,
            position.ecliptic_longitude as int,
        ),
        -233_000_000_000_000_000 <= r <= 233_000_000_000_000_000,
{
    let anomaly_sine = sin_deg(position.mean_anomaly) as i128;
    let longitude_sine = sin_deg(2 * position.ecliptic_longitude) as i128;
    proof {
        lemma_round_div_bound(53 * anomaly_sine, 10_000, 5_300_000);
        lemma_round_div_bound(69 * longitude_sine, 10_000, 6_900_000);
    }
    let anomaly_term = div_round(53 * anomaly_sine, 10_000);
    let longitude_term = div_round(69 * longitude_sine, 10_000);
    (JAN_2000 as i128 + position.mean_solar_time as i128 + anomaly_term - longitude_term) as i64
}

/// Right ascension of the sun, between -180 and 180 degrees.
pub fn right_ascension(ecliptic_longitude: i64) -> (r: i64)
    ensures
        r == spec_right_ascension(ecliptic_longitude as int),
        -HALF_TURN <= r <= HALF_TURN,
{
    let y = mul_unit(sin_deg(ecliptic_longitude), cos_deg(OBLIQUITY));
    let x = mul_unit(cos_deg(ecliptic_longitude), SCALE);
    atan2_deg(y as i64, x as i64)
}

/// Local hour angle of the sun, reduced to at least 0 and less than 360
/// degrees.
pub fn local_hour_angle(
    mean_solar_time: i64,
    second_of_day: u32,
    longitude: i64,
    right_ascension: i64,
) -> (r: i64)
    requires
        second_of_day < 86_400,
    ensures
        r == spec_local_hour_angle(
            mean_solar_time as int,
            second_of_day as int,
            longitude as int,
            right_ascension as int,
        ) % (FULL_TURN as int),
        0 <= r < FULL_TURN,
{
    let seconds = mul_wide(second_of_day as i64, SCALE);
    proof {
        lemma_mul_bound(second_of_day as int, SCALE as int, 86_400, 1_000_000_000);
        lemma_round_div_bound(seconds as int, 240, 360_000_000_000);
    }
    let day_angle = div_round(seconds, 240);
    let angle: i128 = mean_solar_time as i128 + day_angle + longitude as i128
        - right_ascension as i128;
    rem_floor(angle, FULL_TURN as i128) as i64
}

/// Sine of the altitude of the sun, in billionths, between -1 and 1.
pub fn altitude_sine(latitude: i64, declination: i64, hour_angle: i64) -> (r: i64)
    ensures
        r == spec_altitude_sine(latitude as int, declination as int, hour_angle as int),
        -SCALE <= r <= SCALE,
{
    let sines = mul_unit(sin_deg(latitude), sin_deg(declination));
    let cosines = mul_unit(cos_deg(latitude), cos_deg(declination));
    let cos_hour_angle = cos_deg(hour_angle);
    proof {
        lemma_mul_bound(sines as int, SCALE as int, 1_000_000_000_000_000_000, 1_000_000_000);
        lemma_mul_bound(
            cosines as int,
            cos_hour_angle as int,
            1_000_000_000_000_000_000,
            1_000_000_000,
        );
    }
    let vertical = mul_wide(sines as i64, SCALE);
    let horizontal = mul_wide(cosines as i64, cos_hour_angle);
    proof {
        lemma_round_div_bound(vertical + horizontal, UNIT as int, 2_000_000_000);
    }
    let sine = div_round(vertical + horizontal, UNIT);
    if sine < -(SCALE as i128) {
        -SCALE
    } else if sine > SCALE as i128 {
        SCALE
    } else {
        sine as i64
    }
}

} // verus!
