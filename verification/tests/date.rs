use awsv4_http::awsv4::date::{Date, DateFormatting};
use chrono::{Datelike, TimeZone, Timelike};

fn date(y: i32, mo: u32, d: u32, h: u32, mi: u32, s: u32) -> Date {
    Date::from_ymd_hms(y, mo, d, h, mi, s).expect("valid date")
}

fn from_chrono(t: &chrono::DateTime<chrono::Utc>) -> Date {
    let leap = if t.nanosecond() >= 1_000_000_000 { 1 } else { 0 };
    date(t.year(), t.month(), t.day(), t.hour(), t.minute(), t.second() + leap)
}

#[test]
fn test_fn() {
    let now = chrono::Utc::now();
    let date = from_chrono(&now);
    println!("{:?}", date.format_yyyymmddthhmmssz());
    assert_eq!(date.format_yyyymmddthhmmssz(), now.format("%Y%m%dT%H%M%SZ").to_string());
    assert_eq!(date.format_yyyymmdd(), now.format("%Y%m%d").to_string());
}

#[test]
fn formats_a_plain_timestamp() {
    let d = date(2024, 1, 31, 23, 59, 59);
    assert_eq!(d.format_yyyymmddthhmmssz(), "20240131T235959Z");
    assert_eq!(d.format_yyyymmdd(), "20240131");
}

#[test]
fn pads_small_fields_with_zeros() {
    let d = date(5, 2, 3, 4, 5, 6);
    assert_eq!(d.format_yyyymmddthhmmssz(), "00050203T040506Z");
    assert_eq!(d.format_yyyymmdd(), "00050203");
}

#[test]
fn signs_years_outside_four_digits() {
    assert_eq!(date(-1, 1, 1, 0, 0, 0).format_yyyymmddthhmmssz(), "-00010101T000000Z");
    assert_eq!(date(10000, 12, 31, 0, 0, 0).format_yyyymmdd(), "+100001231");
    assert_eq!(date(-262144, 1, 1, 0, 0, 0).format_yyyymmdd(), "-2621440101");
    assert_eq!(date(262143, 1, 1, 0, 0, 0).format_yyyymmdd(), "+2621430101");
}

#[test]
fn leap_second_is_written_as_sixty() {
    let d = date(2016, 12, 31, 23, 59, 60);
    assert_eq!(d.format_yyyymmddthhmmssz(), "20161231T235960Z");
    let t = chrono::NaiveDate::from_ymd_opt(2016, 12, 31)
        .unwrap()
        .and_hms_milli_opt(23, 59, 59, 1500)
        .unwrap()
        .and_utc();
    assert_eq!(t.format("%Y%m%dT%H%M%SZ").to_string(), d.format_yyyymmddthhmmssz());
}

#[test]
fn rejects_impossible_fields() {
    assert!(Date::from_ymd_hms(2023, 2, 29, 0, 0, 0).is_none());
    assert!(Date::from_ymd_hms(1900, 2, 29, 0, 0, 0).is_none());
    assert!(Date::from_ymd_hms(2000, 2, 29, 0, 0, 0).is_some());
    assert!(Date::from_ymd_hms(2024, 2, 29, 0, 0, 0).is_some());
    assert!(Date::from_ymd_hms(2024, 4, 31, 0, 0, 0).is_none());
    assert!(Date::from_ymd_hms(2024, 13, 1, 0, 0, 0).is_none());
    assert!(Date::from_ymd_hms(2024, 0, 1, 0, 0, 0).is_none());
    assert!(Date::from_ymd_hms(2024, 1, 0, 0, 0, 0).is_none());
    assert!(Date::from_ymd_hms(2024, 1, 1, 24, 0, 0).is_none());
    assert!(Date::from_ymd_hms(2024, 1, 1, 0, 60, 0).is_none());
    assert!(Date::from_ymd_hms(2024, 1, 1, 0, 0, 61).is_none());
    assert!(Date::from_ymd_hms(262144, 1, 1, 0, 0, 0).is_none());
    assert!(Date::from_ymd_hms(-262145, 1, 1, 0, 0, 0).is_none());
    assert!(Date::from_ymd_hms(-4, 2, 29, 0, 0, 0).is_some());
    assert!(Date::from_ymd_hms(-100, 2, 29, 0, 0, 0).is_none());
}

#[test]
fn getters_return_the_fields() {
    let d = date(1999, 12, 31, 1, 2, 3);
    assert_eq!(
        (d.year(), d.month(), d.day(), d.hour(), d.minute(), d.second()),
        (1999, 12, 31, 1, 2, 3)
    );
}

#[test]
fn validity_agrees_with_chrono() {
    for year in [-400, -100, -4, -1, 0, 1, 1900, 2000, 2023, 2024, 2100, 9999, 10000] {
        for month in 0..=13u32 {
            for day in 0..=32u32 {
                let ours = Date::from_ymd_hms(year, month, day, 0, 0, 0).is_some();
                let theirs = chrono::NaiveDate::from_ymd_opt(year, month, day).is_some();
                assert_eq!(ours, theirs, "{year}-{month}-{day}");
            }
        }
    }
}

#[test]
fn formats_agree_with_chrono() {
    for (y, mo, d, h, mi, s) in [
        (1970, 1, 1, 0, 0, 0),
        (2024, 2, 29, 12, 34, 56),
        (9999, 12, 31, 23, 59, 59),
        (123, 7, 8, 9, 10, 11),
        (-45, 3, 4, 5, 6, 7),
        (12345, 6, 7, 8, 9, 10),
    ] {
        let ours = date(y, mo, d, h, mi, s);
        let theirs = chrono::Utc.with_ymd_and_hms(y, mo, d, h, mi, s).unwrap();
        assert_eq!(ours.format_yyyymmddthhmmssz(), theirs.format("%Y%m%dT%H%M%SZ").to_string());
        assert_eq!(ours.format_yyyymmdd(), theirs.format("%Y%m%d").to_string());
    }
}

#[test]
fn timestamp_begins_with_the_date() {
    let d = date(2031, 10, 9, 8, 7, 6);
    assert!(d.format_yyyymmddthhmmssz().starts_with(&d.format_yyyymmdd()));
    assert_eq!(d.format_yyyymmddthhmmssz().len(), 16);
    assert_eq!(d.format_yyyymmdd().len(), 8);
}

#[test]
fn distinct_instants_have_distinct_timestamps() {
    let a = date(2024, 1, 2, 3, 4, 5);
    let b = date(2024, 1, 2, 3, 4, 6);
    let c = date(2024, 1, 20, 3, 4, 5);
    assert_ne!(a.format_yyyymmddthhmmssz(), b.format_yyyymmddthhmmssz());
    assert_ne!(a.format_yyyymmddthhmmssz(), c.format_yyyymmddthhmmssz());
}
