use market_ingest::clock::get_yesterday_range;
use market_ingest::days::{get_day_start, get_end_of_day, get_next_day_range};

// 2022-01-08 00:00:00 UTC, a convenient whole day.
const DAY_START: i64 = 19000 * 86400;

#[test]
fn end_of_day_from_midnight_and_midday() {
    assert_eq!(get_end_of_day(0), 86399);
    assert_eq!(get_end_of_day(DAY_START), DAY_START + 86399);
    assert_eq!(get_end_of_day(DAY_START + 36000), DAY_START + 86399);
    assert_eq!(get_end_of_day(DAY_START + 86399), DAY_START + 86399);
}

#[test]
fn day_start_floors_to_midnight() {
    assert_eq!(get_day_start(DAY_START), DAY_START);
    assert_eq!(get_day_start(DAY_START + 1), DAY_START);
    assert_eq!(get_day_start(DAY_START + 86399), DAY_START);
}

#[test]
fn next_day_range_spans_the_following_day() {
    let (start, end) = get_next_day_range(DAY_START + 36000);
    assert_eq!(start, DAY_START + 86400);
    assert_eq!(end, DAY_START + 86400 + 86399);
    // From a day end, the range is the immediately following day.
    let (start, end) = get_next_day_range(DAY_START + 86399);
    assert_eq!(start, DAY_START + 86400);
    assert_eq!(end, DAY_START + 2 * 86400 - 1);
}

#[test]
fn yesterday_range_of_an_explicit_timestamp() {
    let r = get_yesterday_range(Some(DAY_START + 36000)).unwrap();
    assert_eq!(r.0, DAY_START - 86400);
    assert_eq!(r.1, DAY_START - 1);
}

#[test]
fn yesterday_range_rejects_out_of_range_references() {
    assert_eq!(get_yesterday_range(Some(-5)), None);
    assert_eq!(get_yesterday_range(Some(0)), None);
    assert_eq!(get_yesterday_range(Some(i64::MAX)), None);
}

#[test]
fn yesterday_range_from_the_clock_is_a_whole_day() {
    let (start, end) = get_yesterday_range(None).unwrap();
    assert_eq!(end - start, 86399);
    assert_eq!(start % 86400, 0);
}
