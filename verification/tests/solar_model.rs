use sun_times::solar::{
    altitude_sine, declination, ecliptic_longitude, elevation_correction, equation_of_center,
    hour_angle, local_hour_angle, mean_anomaly, mean_solar_time, right_ascension, solar_position,
    solar_transit, NoSunTimes, SolarPosition,
};

const DEGREE: i64 = 1_000_000_000;
const DAY: i64 = 1_000_000_000;
const METRE: i64 = 1_000_000_000;

/// The sun over Sheffield on the first day of 2022, day 8036 since 2000.
fn sheffield() -> SolarPosition {
    SolarPosition {
        mean_solar_time: 8_036_004_111_111,
        mean_anomaly: 357_817_001_992,
        ecliptic_longitude: 280_679_708_038,
        declination: -23_010_400_200,
    }
}

#[test]
fn mean_solar_time_is_the_day_less_the_longitude_in_turns() {
    assert_eq!(mean_solar_time(0, 0), 0);
    assert_eq!(mean_solar_time(8_036, 180 * DEGREE), 8_035_500_000_000);
    assert_eq!(mean_solar_time(-5, -90 * DEGREE), -4_750_000_000);
    assert_eq!(mean_solar_time(1, 1), DAY);
    assert_eq!(mean_solar_time(8_036, -1_480_000_000), 8_036_004_111_111);
    assert_eq!(mean_solar_time(200_000_000, i64::MIN), 225_620_477_880_152_155);
    assert_eq!(mean_solar_time(-200_000_000, i64::MAX), -225_620_477_880_152_155);
}

#[test]
fn mean_anomaly_grows_with_mean_solar_time() {
    assert_eq!(mean_anomaly(0), 357_529_100_000);
    assert_eq!(mean_anomaly(8_035 * DAY), 356_827_349_800);
    assert_eq!(mean_anomaly(8_036_004_111_111), 357_817_001_992);
    assert_eq!(mean_anomaly(-100_000_000_000_000_000), 49_529_100_000);
    for time in [i64::MIN, -1, 1, i64::MAX] {
        assert!((0..360 * DEGREE).contains(&mean_anomaly(time)));
    }
}

#[test]
fn equation_of_center_of_round_anomalies() {
    assert_eq!(equation_of_center(0), 0);
    assert_eq!(equation_of_center(90 * DEGREE), 1_914_500_000);
    assert_eq!(equation_of_center(270 * DEGREE), -1_914_500_000);
    assert_eq!(equation_of_center(357_817_001_992), -74_493_954);
}

#[test]
fn ecliptic_longitude_of_an_anomaly() {
    assert_eq!(ecliptic_longitude(0), 282_937_200_000);
    assert_eq!(ecliptic_longitude(357_529_100_000), 280_381_987_612);
    assert_eq!(ecliptic_longitude(357_817_001_992), 280_679_708_038);
}

#[test]
fn declination_stays_within_the_obliquity() {
    assert_eq!(declination(0), 0);
    assert_eq!(declination(90 * DEGREE), 23_439_999_975);
    assert_eq!(declination(270 * DEGREE), -23_439_999_975);
    assert_eq!(declination(280_679_708_038), -23_010_400_200);
    let mut longitude = 0;
    while longitude < 360 * DEGREE {
        assert!(declination(longitude).abs() <= 23_440_000_000);
        longitude += 1_000_000_007;
    }
}

#[test]
fn solar_position_chains_the_angles() {
    assert_eq!(solar_position(8_036, -1_480_000_000), sheffield());
    let position = solar_position(0, 0);
    assert_eq!(position.mean_solar_time, 0);
    assert_eq!(position.mean_anomaly, 357_529_100_000);
    assert_eq!(position.ecliptic_longitude, 280_381_987_612);
    assert_eq!(position.declination, declination(280_381_987_612));
}

#[test]
fn elevation_lowers_the_horizon() {
    assert_eq!(elevation_correction(0), 0);
    assert_eq!(elevation_correction(100 * METRE), -346_000_000);
    assert_eq!(elevation_correction(8_848 * METRE), -3_254_607_761);
    assert_eq!(elevation_correction(i64::MAX), -3_322_928_236_908);
}

#[test]
fn hour_angle_of_sunrise_and_sunset() {
    assert_eq!(hour_angle(53_380_000_000, -23_010_400_200, 0), Ok(56_978_852_211));
    assert_eq!(hour_angle(53_380_000_000, -23_010_400_200, 100 * METRE), Ok(57_727_172_313));
    assert_eq!(hour_angle(0, 0, 0), Ok(90_833_000_029));
}

#[test]
fn hour_angle_fails_with_its_reason() {
    assert_eq!(hour_angle(80 * DEGREE, -23 * DEGREE, 0), Err(NoSunTimes::NoSunriseOrSunset));
    assert_eq!(hour_angle(-80 * DEGREE, 23 * DEGREE, 0), Err(NoSunTimes::NoSunriseOrSunset));
    assert_eq!(hour_angle(80 * DEGREE, 23 * DEGREE, 0), Err(NoSunTimes::NoSunriseOrSunset));
    assert_eq!(hour_angle(90 * DEGREE, 0, 0), Err(NoSunTimes::NoSunriseOrSunset));
    assert_eq!(hour_angle(0, 90 * DEGREE, 0), Err(NoSunTimes::NoSunriseOrSunset));
    assert_eq!(hour_angle(0, 0, -1), Err(NoSunTimes::InvalidElevation));
    assert_eq!(hour_angle(90 * DEGREE, 0, -1), Err(NoSunTimes::InvalidElevation));
    assert_eq!(hour_angle(0, 0, i64::MIN), Err(NoSunTimes::InvalidElevation));
}

#[test]
fn solar_transit_is_near_mean_noon() {
    let origin = SolarPosition {
        mean_solar_time: 0,
        mean_anomaly: 0,
        ecliptic_longitude: 0,
        declination: 0,
    };
    assert_eq!(solar_transit(origin), 2_451_545_000_000_000);
    assert_eq!(solar_transit(sheffield()), 2_459_581_006_422_326);
    for day in 8_000..8_400 {
        for longitude in [-180 * DEGREE, -1_480_000_000, 0, 77 * DEGREE, 180 * DEGREE] {
            let position = solar_position(day, longitude);
            let mean_noon = 2_451_545_000_000_000 + position.mean_solar_time;
            assert!((solar_transit(position) - mean_noon).abs() <= 12_200_000);
            let next = solar_transit(solar_position(day + 1, longitude));
            assert!((next - solar_transit(position) - DAY).abs() <= 24_400_000);
        }
    }
}

#[test]
fn right_ascension_of_the_sun() {
    assert_eq!(right_ascension(280_679_708_038), -78_384_769_883);
    assert_eq!(right_ascension(281_698_934_179), -77_281_682_245);
    assert_eq!(right_ascension(0), 0);
    assert_eq!(right_ascension(180 * DEGREE), 180 * DEGREE);
}

#[test]
fn local_hour_angle_turns_with_the_day() {
    assert_eq!(local_hour_angle(0, 0, 0, 0), 0);
    assert_eq!(local_hour_angle(0, 3_600, 0, 0), 15 * DEGREE);
    assert_eq!(local_hour_angle(0, 86_399, 0, 0), 359_995_833_333);
    assert_eq!(local_hour_angle(0, 0, -10 * DEGREE, 0), 350 * DEGREE);
    assert_eq!(local_hour_angle(0, 0, 0, 10 * DEGREE), 350 * DEGREE);
    assert_eq!(
        local_hour_angle(8_037_004_111_111, 49_556, -1_480_000_000, -77_281_682_245),
        39_289_126_689
    );
    let turned = local_hour_angle(i64::MAX, 86_399, i64::MAX, i64::MIN);
    assert!((0..360 * DEGREE).contains(&turned));
}

#[test]
fn sine_of_the_altitude() {
    assert_eq!(altitude_sine(53_380_000_000, -22_924_951_723, 39_289_126_689), 112_570_139);
    assert_eq!(altitude_sine(90 * DEGREE, 90 * DEGREE, 0), 1_000_000_000);
    assert_eq!(altitude_sine(90 * DEGREE, -90 * DEGREE, 0), -1_000_000_000);
    assert_eq!(altitude_sine(0, 0, 0), 1_000_000_000);
    assert_eq!(altitude_sine(0, 0, 180 * DEGREE), -1_000_000_000);
    assert_eq!(altitude_sine(0, 0, 90 * DEGREE), 0);
}
