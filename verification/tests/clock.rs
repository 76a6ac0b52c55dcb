use schwab_bot::clock::{
    first_time_from, read_entered_time, read_execution_time, time_from, time_told, UtcTime,
    EARLIEST, LATEST,
};

// 2024-02-29T12:00:00Z
const LEAP_NOON: i64 = 1_709_208_000;

fn at(secs: i64) -> UtcTime {
    UtcTime::new(secs, 0).unwrap()
}

#[test]
fn times_are_those_that_the_calendar_holds() {
    for (secs, nanos) in [
        (EARLIEST, 0),
        (EARLIEST - 1, 0),
        (LATEST, 999_999_999),
        (LATEST + 1, 0),
        (i64::MIN, 0),
        (i64::MAX, 0),
        (0, 999_999_999),
        (0, 1_000_000_000),
        (59, 1_000_000_000),
        (59, 1_999_999_999),
        (59, 2_000_000_000),
        (-1, 1_500_000_000),
        (-2, 1_500_000_000),
        (LATEST, 1_000_000_000),
    ] {
        let held = chrono::DateTime::from_timestamp(secs, nanos);
        assert_eq!(UtcTime::new(secs, nanos).is_some(), held.is_some());
    }
    assert!(UtcTime::new(253_402_300_800, 0).is_some());
    assert_eq!(UtcTime::new(LEAP_NOON, 7).unwrap().parts(), (LEAP_NOON, 7));
}

#[test]
fn the_later_of_two_times_is_found_either_way() {
    let early = UtcTime::new(LEAP_NOON, 5).unwrap();
    let late = UtcTime::new(LEAP_NOON, 6).unwrap();
    assert_eq!(early.later(late).parts(), late.parts());
    assert_eq!(late.later(early).parts(), late.parts());
    assert_eq!(at(1).later(at(-1)).parts(), (1, 0));
    assert_eq!(at(-1).later(at(1)).parts(), (1, 0));
}

#[test]
fn entered_times_are_read_with_their_offset() {
    for text in [
        "2024-02-29T12:00:00+0000",
        "2024-02-29T12:00:00.000Z",
        "2024-02-29T12:00:00Z",
        "2024-02-29T13:00:00+01:00",
        "2024-02-29T07:00:00-0500",
    ] {
        assert_eq!(read_entered_time(text).unwrap().parts(), (LEAP_NOON, 0), "{}", text);
    }
    assert_eq!(
        read_entered_time("2024-02-29T12:00:00.250+0000").unwrap().parts(),
        (LEAP_NOON, 250_000_000)
    );
    for text in ["", "yesterday", "2024-02-29", "2024-02-30T12:00:00Z", "2024-02-29T12:00:00"] {
        assert!(read_entered_time(text).is_none(), "{}", text);
    }
}

#[test]
fn execution_times_are_read_in_utc() {
    assert_eq!(read_execution_time("20240229-12:00:00").unwrap().parts(), (LEAP_NOON, 0));
    assert_eq!(read_execution_time("20240229 12:00:00 UTC").unwrap().parts(), (LEAP_NOON, 0));
    for text in ["", "20240229", "20240230-12:00:00", "20240230 12:00:00 UTC", "2024-02-29 12:00"]
        .into_iter()
        .chain(["20240229 07:00:00 US/Eastern", "20240229 12:00:00"])
    {
        assert!(read_execution_time(text).is_none(), "{}", text);
    }
}

#[test]
fn nothing_counts_as_of_after_it_is_told() {
    let now = at(LEAP_NOON);
    assert_eq!(time_told(Some(at(LEAP_NOON - 1)), now).parts(), (LEAP_NOON - 1, 0));
    assert_eq!(time_told(Some(at(LEAP_NOON + 1)), now).parts(), (LEAP_NOON, 0));
    assert_eq!(time_told(None, now).parts(), (LEAP_NOON, 0));
    let zoned = read_execution_time("20240228 19:30:00 US/Eastern");
    assert_eq!(time_told(zoned, now).parts(), (LEAP_NOON, 0));
}

#[test]
fn the_earlier_of_two_times_is_found_either_way() {
    let early = UtcTime::new(LEAP_NOON, 5).unwrap();
    let late = UtcTime::new(LEAP_NOON, 6).unwrap();
    assert_eq!(early.earlier(late).parts(), early.parts());
    assert_eq!(late.earlier(early).parts(), early.parts());
}

#[test]
fn the_first_reading_that_is_a_time_counts() {
    assert_eq!(time_from(Some((5, 6))).unwrap().parts(), (5, 6));
    assert!(time_from(Some((5, 2_000_000_000))).is_none());
    assert!(time_from(None).is_none());
    let first = |a, b| first_time_from(a, b).map(|t| t.parts());
    assert_eq!(first(Some((5, 0)), Some((7, 0))), Some((5, 0)));
    assert_eq!(first(None, Some((7, 0))), Some((7, 0)));
    assert_eq!(first(Some((i64::MAX, 0)), Some((7, 0))), Some((7, 0)));
    assert_eq!(first(None, None), None);
}

#[test]
fn days_end_at_midnight() {
    let midnight = LEAP_NOON + 43_200;
    assert!(at(LEAP_NOON).same_day(at(midnight - 1)));
    assert!(!at(LEAP_NOON).same_day(at(midnight)));
    assert!(at(-1).same_day(at(-86_400)));
    assert!(!at(-1).same_day(at(0)));
    assert!(at(EARLIEST).same_day(at(EARLIEST + 86_399)));
    assert!(at(LATEST).same_day(at(LATEST - 86_399)));
}

#[test]
fn dates_are_written_in_order() {
    assert_eq!(at(LEAP_NOON).date(), "2024-02-29");
    assert_eq!(at(0).date(), "1970-01-01");
    assert_eq!(at(-1).date(), "1969-12-31");
    assert_eq!(at(-62_135_596_800).date(), "0001-01-01");
    assert_eq!(at(253_402_300_800).date(), "+10000-01-01");
}

#[test]
fn stamps_follow_rfc_3339() {
    assert_eq!(at(LEAP_NOON).stamp(), "2024-02-29T12:00:00+00:00");
    assert_eq!(
        UtcTime::new(LEAP_NOON, 500_000_000).unwrap().stamp(),
        "2024-02-29T12:00:00.500+00:00"
    );
}

#[test]
fn a_day_earlier_is_the_same_time_of_day() {
    let earlier = UtcTime::new(LEAP_NOON, 5_000_000).unwrap().day_earlier().unwrap();
    assert_eq!(earlier.stamp(), "2024-02-28T12:00:00.005+00:00");
    assert!(at(EARLIEST + 86_399).day_earlier().is_none());
    assert!(at(EARLIEST + 86_400).day_earlier().is_some());
}
