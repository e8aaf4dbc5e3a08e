use sun_times::calendar::{CivilDate, UtcInstant, MAX_TIMESTAMP, MIN_TIMESTAMP};
use sun_times::julian::{JulianDate, JAN_2000, LEAP_SECONDS, UNIX_EPOCH};

fn julian(nanodays: i64) -> JulianDate {
    JulianDate { nanodays }
}

fn instant(secs: i64) -> UtcInstant {
    UtcInstant::from_timestamp(secs).unwrap()
}

#[test]
fn unix_epoch_is_julian_2440587_5() {
    assert_eq!(JulianDate::from_utc_instant(instant(0)).nanodays, 2_440_587_500_000_000);
    assert_eq!(UNIX_EPOCH, 2_440_587_500_000_000);
}

#[test]
fn noon_on_the_first_day_of_2000_is_julian_2451545() {
    assert_eq!(JulianDate::from_utc_instant(instant(946_728_000)).nanodays, JAN_2000);
    assert_eq!(JAN_2000, 2_451_545_000_000_000);
}

#[test]
fn julian_date_of_an_instant() {
    assert_eq!(JulianDate::from_utc_instant(instant(1)).nanodays, 2_440_587_500_011_574);
    assert_eq!(JulianDate::from_utc_instant(instant(-1)).nanodays, 2_440_587_499_988_426);
    assert_eq!(JulianDate::from_utc_instant(instant(43_200)).nanodays, 2_440_588_000_000_000);
    assert_eq!(
        JulianDate::from_utc_instant(instant(1_641_038_400)).nanodays,
        2_459_581_000_000_000
    );
}

#[test]
fn instant_of_a_julian_date_is_the_nearest_second() {
    assert_eq!(julian(2_440_587_500_000_000).to_utc_instant(), Some(instant(0)));
    assert_eq!(julian(2_440_587_500_005_787).to_utc_instant(), Some(instant(0)));
    assert_eq!(julian(2_440_587_500_005_788).to_utc_instant(), Some(instant(1)));
    assert_eq!(julian(2_440_587_499_994_213).to_utc_instant(), Some(instant(0)));
    assert_eq!(julian(2_459_581_000_000_000).to_utc_instant(), Some(instant(1_641_038_400)));
}

#[test]
fn julian_dates_beyond_the_calendar_have_no_instant() {
    assert_eq!(julian(i64::MAX).to_utc_instant(), None);
    assert_eq!(julian(i64::MIN).to_utc_instant(), None);
    assert_eq!(julian(200_000_000_000_000_000).to_utc_instant(), None);
    let last = JulianDate::from_utc_instant(instant(MAX_TIMESTAMP));
    assert_eq!(last.to_utc_instant(), Some(instant(MAX_TIMESTAMP)));
    assert_eq!(julian(last.nanodays + 11_575).to_utc_instant(), None);
    let first = JulianDate::from_utc_instant(instant(MIN_TIMESTAMP));
    assert_eq!(first.to_utc_instant(), Some(instant(MIN_TIMESTAMP)));
    assert_eq!(julian(first.nanodays - 11_575).to_utc_instant(), None);
}

#[test]
fn instants_round_trip_through_julian_dates() {
    let year_2100 = 4_102_444_800i64;
    let mut secs = 0i64;
    while secs <= year_2100 {
        let back = JulianDate::from_utc_instant(instant(secs)).to_utc_instant();
        assert_eq!(back, Some(instant(secs)));
        secs += 1_234_567;
    }
    for secs in [0, 1, 59, 86_399, 86_400, year_2100, -1, -86_401, MIN_TIMESTAMP, MAX_TIMESTAMP] {
        let back = JulianDate::from_utc_instant(instant(secs)).to_utc_instant();
        assert_eq!(back.map(|t| t.timestamp()), Some(secs));
    }
}

#[test]
fn ceil_days_rounds_up_to_whole_days() {
    assert_eq!(julian(0).ceil_days(), 0);
    assert_eq!(julian(1).ceil_days(), 1);
    assert_eq!(julian(-1).ceil_days(), 0);
    assert_eq!(julian(1_000_000_000).ceil_days(), 1);
    assert_eq!(julian(1_000_000_001).ceil_days(), 2);
    assert_eq!(julian(-1_000_000_000).ceil_days(), -1);
    assert_eq!(julian(-1_000_000_001).ceil_days(), -1);
    assert_eq!(julian(2_459_580_500_000_000).ceil_days(), 2_459_581);
    assert_eq!(julian(i64::MAX).ceil_days(), 9_223_372_037);
    assert_eq!(julian(i64::MIN).ceil_days(), -9_223_372_036);
}

#[test]
fn julian_dates_add_and_subtract() {
    assert_eq!(julian(5).add(julian(7)), julian(12));
    assert_eq!(julian(5).sub(julian(7)), julian(-2));
    assert_eq!(julian(JAN_2000).sub(julian(UNIX_EPOCH)).nanodays, 10_957_500_000_000);
    assert_eq!(julian(JAN_2000).add(julian(LEAP_SECONDS)).nanodays, 2_451_545_000_800_000);
}

#[test]
fn day_count_since_2000_rounds_up() {
    let midnight = JulianDate::from_utc_instant(instant(1_640_995_200));
    assert_eq!(midnight.nanodays, 2_459_580_500_000_000);
    assert_eq!(midnight.days_since_2000(), 8_036);
    assert_eq!(julian(JAN_2000).days_since_2000(), 1);
    assert_eq!(julian(JAN_2000 - LEAP_SECONDS).days_since_2000(), 0);
    assert_eq!(julian(JAN_2000 - LEAP_SECONDS + 1).days_since_2000(), 1);
    assert_eq!(julian(JAN_2000 - 1_000_000_000).days_since_2000(), 0);
    // 11:58:50 UTC still counts for the day, 11:58:51 for the next.
    let before = JulianDate::from_utc_instant(instant(1_640_995_200 + 43_130));
    let after = JulianDate::from_utc_instant(instant(1_640_995_200 + 43_131));
    assert_eq!(before.days_since_2000(), 8_036);
    assert_eq!(after.days_since_2000(), 8_037);
}

#[test]
fn every_midnight_is_half_a_day_before_its_julian_noon() {
    for unix_day in [-20_000i64, -1, 0, 1, 10_957, 18_993, 47_482] {
        let midnight = JulianDate::from_utc_instant(instant(unix_day * 86_400));
        assert_eq!(midnight.nanodays, unix_day * 1_000_000_000 + UNIX_EPOCH);
        assert_eq!(midnight.days_since_2000(), unix_day - 10_957);
        let noon = JulianDate::from_utc_instant(instant(unix_day * 86_400 + 43_200));
        assert_eq!(noon.nanodays, JAN_2000 + (unix_day - 10_957) * 1_000_000_000);
    }
}

#[test]
fn instants_exist_within_the_calendar_only() {
    assert!(UtcInstant::from_timestamp(MIN_TIMESTAMP).is_some());
    assert!(UtcInstant::from_timestamp(MAX_TIMESTAMP).is_some());
    assert!(UtcInstant::from_timestamp(MIN_TIMESTAMP - 1).is_none());
    assert!(UtcInstant::from_timestamp(MAX_TIMESTAMP + 1).is_none());
    assert!(UtcInstant::from_timestamp(i64::MAX).is_none());
    assert!(UtcInstant::from_timestamp(i64::MIN).is_none());
    assert_eq!(UtcInstant::from_timestamp(-5).unwrap().timestamp(), -5);
    assert_eq!(MIN_TIMESTAMP, -8_334_601_228_800);
    assert_eq!(MAX_TIMESTAMP, 8_210_266_876_799);
}

#[test]
fn midnight_of_a_civil_date() {
    let start = CivilDate { year: 2022, month: 1, day: 1 }.midnight().unwrap();
    assert_eq!(start.timestamp(), 1_640_995_200);
    assert_eq!(CivilDate { year: 1970, month: 1, day: 1 }.midnight().unwrap().timestamp(), 0);
    assert_eq!(
        CivilDate { year: 1969, month: 12, day: 31 }.midnight().unwrap().timestamp(),
        -86_400
    );
    assert_eq!(
        CivilDate { year: -262_143, month: 1, day: 1 }.midnight().unwrap().timestamp(),
        MIN_TIMESTAMP
    );
    assert_eq!(
        CivilDate { year: 262_142, month: 12, day: 31 }.midnight().unwrap().timestamp(),
        MAX_TIMESTAMP - 86_399
    );
    assert_eq!(CivilDate { year: 2022, month: 2, day: 29 }.midnight(), None);
    assert_eq!(CivilDate { year: 262_143, month: 1, day: 1 }.midnight(), None);
    assert_eq!(CivilDate { year: -262_144, month: 12, day: 31 }.midnight(), None);
}

#[test]
fn second_of_day_counts_from_midnight() {
    assert_eq!(instant(0).second_of_day(), 0);
    assert_eq!(instant(1_641_044_756).second_of_day(), 49_556);
    assert_eq!(instant(86_399).second_of_day(), 86_399);
    assert_eq!(instant(-1).second_of_day(), 86_399);
    assert_eq!(instant(-86_400).second_of_day(), 0);
    assert_eq!(instant(3_600).second_of_day(), 3_600);
    assert_eq!(instant(60).second_of_day(), 60);
    assert_eq!(instant(MIN_TIMESTAMP).second_of_day(), 0);
    assert_eq!(instant(MAX_TIMESTAMP).second_of_day(), 86_399);
}
