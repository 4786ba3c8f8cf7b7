use notion_to_day_one::timestamp::{CivilTime, Timestamp};

fn civil(year: i32, month: u8, day: u8, hour: u8, minute: u8, second: u8) -> CivilTime {
    CivilTime { year, month, day, hour, minute, second }
}

#[test]
fn the_calendar_ends_with_the_year_9999() {
    assert!(Timestamp::from_unix_timestamp(253_402_300_799).is_some());
    assert!(Timestamp::from_unix_timestamp(253_402_300_800).is_none());
    assert!(Timestamp::from_unix_timestamp(-377_705_116_800).is_some());
    assert!(Timestamp::from_unix_timestamp(-377_705_116_801).is_none());
    assert!(Timestamp::from_unix_timestamp(i64::MAX).is_none());
    assert!(Timestamp::from_unix_timestamp(i64::MIN).is_none());
}

#[test]
fn unix_timestamp_gives_the_seconds_back() {
    for seconds in [0, 1, 60, -1, 1_546_300_800] {
        assert_eq!(Timestamp::from_unix_timestamp(seconds).unwrap().unix_timestamp(), seconds);
    }
}

#[test]
fn to_utc_reads_the_calendar() {
    assert_eq!(Timestamp::from_unix_timestamp(0).unwrap().to_utc(), civil(1970, 1, 1, 0, 0, 0));
    assert_eq!(
        Timestamp::from_unix_timestamp(1_546_300_799).unwrap().to_utc(),
        civil(2018, 12, 31, 23, 59, 59)
    );
}

#[test]
fn from_local_applies_the_offset() {
    let local = civil(2019, 1, 1, 0, 0, 0);
    assert_eq!(Timestamp::from_local(&local, 0).unwrap().unix_timestamp(), 1_546_300_800);
    assert_eq!(Timestamp::from_local(&local, -1).unwrap().unix_timestamp(), 1_546_304_400);
    assert_eq!(Timestamp::from_local(&local, 1).unwrap().unix_timestamp(), 1_546_297_200);
    assert_eq!(
        Timestamp::from_local(&civil(1970, 1, 1, 0, 0, 30), 0).unwrap().unix_timestamp(),
        30
    );
}

#[test]
fn from_local_refuses_what_is_no_date_or_offset() {
    assert!(Timestamp::from_local(&civil(2019, 2, 29, 0, 0, 0), 0).is_none());
    assert!(Timestamp::from_local(&civil(2020, 2, 29, 0, 0, 0), 0).is_some());
    assert!(Timestamp::from_local(&civil(2100, 2, 29, 0, 0, 0), 0).is_none());
    assert!(Timestamp::from_local(&civil(2000, 2, 29, 0, 0, 0), 0).is_some());
    assert!(Timestamp::from_local(&civil(2019, 0, 1, 0, 0, 0), 0).is_none());
    assert!(Timestamp::from_local(&civil(2019, 13, 1, 0, 0, 0), 0).is_none());
    assert!(Timestamp::from_local(&civil(2019, 6, 31, 0, 0, 0), 0).is_none());
    assert!(Timestamp::from_local(&civil(2019, 6, 0, 0, 0, 0), 0).is_none());
    assert!(Timestamp::from_local(&civil(2019, 6, 1, 24, 0, 0), 0).is_none());
    assert!(Timestamp::from_local(&civil(2019, 6, 1, 0, 60, 0), 0).is_none());
    assert!(Timestamp::from_local(&civil(2019, 6, 1, 0, 0, 60), 0).is_none());
    assert!(Timestamp::from_local(&civil(10000, 1, 1, 0, 0, 0), 0).is_none());
    assert!(Timestamp::from_local(&civil(-10000, 1, 1, 0, 0, 0), 0).is_none());
    assert!(Timestamp::from_local(&civil(2019, 6, 1, 0, 0, 0), 25).is_some());
    assert!(Timestamp::from_local(&civil(2019, 6, 1, 0, 0, 0), -25).is_some());
    assert!(Timestamp::from_local(&civil(2019, 6, 1, 0, 0, 0), 26).is_none());
    assert!(Timestamp::from_local(&civil(2019, 6, 1, 0, 0, 0), -26).is_none());
}

#[test]
fn from_local_refuses_instants_beyond_the_calendar() {
    assert!(Timestamp::from_local(&civil(-9999, 1, 1, 0, 0, 0), 1).is_none());
    assert!(Timestamp::from_local(&civil(-9999, 1, 1, 0, 0, 0), 0).is_some());
    assert!(Timestamp::from_local(&civil(9999, 12, 31, 23, 59, 59), -1).is_none());
    assert!(Timestamp::from_local(&civil(9999, 12, 31, 23, 59, 59), 0).is_some());
}
