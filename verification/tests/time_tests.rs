use s3_core::error::S3Error;
use s3_core::time::{parse_rfc3339, timestamp_from_unix, Timestamp};

fn ts(
    year: u16,
    month: u8,
    day: u8,
    hour: u8,
    minute: u8,
    second: u8,
    nanosecond: u32,
) -> Timestamp {
    Timestamp { year, month, day, hour, minute, second, nanosecond }
}

#[test]
fn parses_a_plain_utc_timestamp() {
    assert_eq!(
        parse_rfc3339("2020-01-01T00:00:00Z").unwrap(),
        ts(2020, 1, 1, 0, 0, 0, 0)
    );
}

#[test]
fn parses_a_fraction_into_nanoseconds() {
    assert_eq!(
        parse_rfc3339("2023-06-05T12:34:56.789Z").unwrap(),
        ts(2023, 6, 5, 12, 34, 56, 789_000_000)
    );
    assert_eq!(
        parse_rfc3339("2023-06-05T12:34:56.000000001Z").unwrap(),
        ts(2023, 6, 5, 12, 34, 56, 1)
    );
}

#[test]
fn normalizes_an_offset_to_utc() {
    assert_eq!(
        parse_rfc3339("2020-01-01T00:30:00+01:00").unwrap(),
        ts(2019, 12, 31, 23, 30, 0, 0)
    );
    assert_eq!(
        parse_rfc3339("2019-12-31T23:30:00-01:00").unwrap(),
        ts(2020, 1, 1, 0, 30, 0, 0)
    );
}

#[test]
fn accepts_a_lower_case_separator() {
    assert_eq!(
        parse_rfc3339("2020-02-29t01:02:03z").unwrap(),
        ts(2020, 2, 29, 1, 2, 3, 0)
    );
}

#[test]
fn rejects_malformed_timestamps() {
    assert_eq!(parse_rfc3339("2020-13-01T00:00:00Z"), Err(S3Error::DecodeError));
    assert_eq!(parse_rfc3339("2021-02-29T00:00:00Z"), Err(S3Error::DecodeError));
    assert_eq!(parse_rfc3339("2020-01-01T24:00:00Z"), Err(S3Error::DecodeError));
    assert_eq!(parse_rfc3339("2020-01-01T00:00:60Z"), Err(S3Error::DecodeError));
    assert_eq!(parse_rfc3339("2020-01-01 00:00"), Err(S3Error::DecodeError));
    assert_eq!(parse_rfc3339("2020-01-01T00:00:00"), Err(S3Error::DecodeError));
    assert_eq!(parse_rfc3339("2020-01-01T00:00:00Z junk"), Err(S3Error::DecodeError));
    assert_eq!(parse_rfc3339("2020-01-01T00:00:00.Z"), Err(S3Error::DecodeError));
    assert_eq!(parse_rfc3339("2020-01-01T00:00:00+25:00"), Err(S3Error::DecodeError));
}

#[test]
fn formats_round_trip_through_the_parser() {
    let t1 = ts(2024, 2, 29, 23, 59, 59, 0);
    assert_eq!(t1.rfc3339(), "2024-02-29T23:59:59Z");
    assert_eq!(parse_rfc3339(&t1.rfc3339()).unwrap(), t1);
    let t2 = ts(1999, 12, 31, 0, 0, 0, 5);
    assert_eq!(t2.rfc3339(), "1999-12-31T00:00:00.000000005Z");
    assert_eq!(parse_rfc3339(&t2.rfc3339()).unwrap(), t2);
}

#[test]
fn signing_stamps_have_their_fixed_shapes() {
    let t = ts(2013, 5, 24, 0, 0, 0, 0);
    assert_eq!(t.date_stamp(), "20130524");
    assert_eq!(t.amz_date(), "20130524T000000Z");
}

#[test]
fn header_dates_name_the_weekday_and_month() {
    let t = ts(2015, 10, 21, 7, 28, 0, 0);
    assert_eq!(t.http_date(), "Wednesday, 21 Oct 2015 07:28:00 GMT");
    let epoch = ts(1970, 1, 1, 0, 0, 0, 0);
    assert_eq!(epoch.http_date(), "Thursday, 01 Jan 1970 00:00:00 GMT");
}

#[test]
fn unix_conversion_matches_the_calendar() {
    assert_eq!(timestamp_from_unix(0, 0).unwrap(), ts(1970, 1, 1, 0, 0, 0, 0));
    assert_eq!(
        timestamp_from_unix(1577836800, 0).unwrap(),
        ts(2020, 1, 1, 0, 0, 0, 0)
    );
    assert_eq!(
        timestamp_from_unix(951827696, 123).unwrap(),
        ts(2000, 2, 29, 12, 34, 56, 123)
    );
    assert_eq!(timestamp_from_unix(-1, 0).unwrap(), ts(1969, 12, 31, 23, 59, 59, 0));
}
