use jasmine::is_keyword;
use jasmine::parse_date;
use jasmine::parse_datetime;
use jasmine::parse_duration;
use jasmine::parse_time;
use jasmine::parse_timestamp;
use jasmine::temporal::datetime_millis;
use jasmine::temporal::timestamp_nanos;
use jasmine::NS_IN_DAY;
use jasmine::UNIX_EPOCH_DAY;

#[test]
fn test_parse_time() {
    assert_eq!(parse_time("23:59:59").unwrap(), 86399000000000);
    assert_eq!(parse_time("07:59:59").unwrap(), 28799000000000);
    assert_eq!(parse_time("23:59:59.").unwrap(), 86399000000000);
    assert_eq!(parse_time("23:59:59.123456789").unwrap(), 86399123456789);
    assert_eq!(parse_time("23:59:59.123").unwrap(), 86399123000000);
    assert_eq!(parse_time("23:59:59.000123").unwrap(), 86399000123000);
    assert!(parse_time("24:59:59.123456789").is_err())
}

#[test]
fn test_parse_duration() {
    assert_eq!(parse_duration("-0D23:59:59").unwrap(), -86399000000000);
    assert_eq!(parse_duration("0D23:59:59").unwrap(), 86399000000000);
    assert_eq!(parse_duration("1D23:59:59").unwrap(), 172799000000000);
    assert_eq!(parse_duration("100D23:59:59").unwrap(), 8726399000000000);
    assert!(parse_duration("100D23:60:59.123456789").is_err())
}

#[test]
fn time_of_day_is_read_field_by_field() {
    assert_eq!(parse_time("23:59:59.123").unwrap(), 86_399_123_000_000);
    assert_eq!(parse_time("00:00:00").unwrap(), 0);
    assert_eq!(parse_time("1:2:3").unwrap(), 3_723_000_000_000);
    assert_eq!(parse_time("23:59:59.999999999").unwrap(), NS_IN_DAY - 1);
    for text in [
        "",
        "12",
        "12:00",
        "12:60:00",
        "12:00:60",
        "12:00:00.1234567890",
        "23:59:59.0000000001",
        "23:59:59.1.2",
        "12:00:00:00",
        "-1:00:00",
        "1:-1:00",
        "1:00:-1",
        "12:00:00.-1",
        "a:b:c",
        "123456789",
    ] {
        assert_eq!(parse_time(text).unwrap_err(), format!("Not a valid time, {}", text));
    }
}

#[test]
fn duration_is_days_and_time_or_a_count_of_units() {
    assert_eq!(parse_duration("-0D23:59:59").unwrap(), -86_399_000_000_000);
    assert_eq!(parse_duration("2D").unwrap(), 2 * NS_IN_DAY);
    assert_eq!(parse_duration("-2D00:00:01").unwrap(), -2 * NS_IN_DAY - 1_000_000_000);
    assert_eq!(parse_duration("2D00:00:01.5").unwrap(), 2 * NS_IN_DAY + 1_500_000_000);
    assert_eq!(parse_duration("15ns").unwrap(), 15);
    assert_eq!(parse_duration("-15s").unwrap(), -15_000_000_000);
    assert_eq!(parse_duration("3m").unwrap(), 180_000_000_000);
    assert_eq!(parse_duration("2h").unwrap(), 7_200_000_000_000);
    assert!(parse_duration("100D23:60:59").is_err());
    for text in ["", "5", "5x", "D", "xD", "9223372036854775807s", "106752D"] {
        assert_eq!(parse_duration(text).unwrap_err(), format!("Not a valid duration, {}", text));
    }
}

#[test]
fn dates_count_days_of_the_common_era() {
    assert_eq!(parse_date("1970-01-01").unwrap(), UNIX_EPOCH_DAY);
    assert_eq!(parse_date("0001-01-01").unwrap(), 1);
    assert_eq!(parse_date("2024-02-29").unwrap() - UNIX_EPOCH_DAY, 19782);
    assert_eq!(parse_date("2023-02-29").unwrap_err(), "Not a valid date, 2023-02-29");
    assert_eq!(parse_date("today").unwrap_err(), "Not a valid date, today");
}

#[test]
fn instants_are_read_in_the_zone_of_the_machine() {
    let midnight = parse_datetime("2020-06-01T").unwrap();
    assert_eq!(parse_datetime("2020-06-01T00:00:00").unwrap(), midnight);
    assert_eq!(parse_datetime("2020-06-01T00:00:01.250").unwrap(), midnight + 1_250);
    assert_eq!(midnight.rem_euclid(1_000), 0);
    assert!((midnight - 1_590_969_600_000).abs() <= 86_400_000);
    assert_eq!(parse_datetime("2020-06-01").unwrap_err(), "Not a valid datetime, 2020-06-01");
    assert_eq!(parse_datetime("2020-06-31T").unwrap_err(), "Not a valid datetime, 2020-06-31T");
    let start = parse_timestamp("2020-06-01D").unwrap();
    assert_eq!(start, midnight * 1_000_000);
    assert_eq!(parse_timestamp("2020-06-01D00:00:00.000000007").unwrap(), start + 7);
    assert_eq!(parse_timestamp("2020-06-01T").unwrap_err(), "Not a valid timestamp, 2020-06-01T");
    assert_eq!(parse_timestamp("3000-01-01D").unwrap(), 0);
}

#[test]
fn instants_follow_from_what_calendar_and_zone_made_of_them() {
    assert_eq!(datetime_millis(Some((10, 999_999_999)), Some(7), "x").unwrap(), 7_999);
    assert_eq!(datetime_millis(Some((10, 5_000_000)), None, "x").unwrap(), 10_005);
    assert_eq!(datetime_millis(Some((-1, 0)), None, "x").unwrap(), -1_000);
    assert_eq!(datetime_millis(None, None, "x").unwrap_err(), "Not a valid datetime, x");
    assert_eq!(timestamp_nanos(Some((10, 5)), Some(7), "x").unwrap(), 7_000_000_005);
    assert_eq!(timestamp_nanos(Some((10, 5)), None, "x").unwrap(), 10_000_000_005);
    assert_eq!(timestamp_nanos(Some((8_999_999_999_999, 0)), None, "x").unwrap(), 0);
    assert_eq!(timestamp_nanos(None, Some(1), "x").unwrap_err(), "Not a valid timestamp, x");
}

#[test]
fn reserved_words() {
    for word in [
        "select", "update", "delete", "group", "by", "from", "where", "order", "take", "sort",
        "if", "exit", "while", "try", "catch", "return", "raise", "fn", "df", "true", "false",
        "null",
    ] {
        assert!(is_keyword(word), "{}", word);
    }
    for word in ["", "Select", "selects", "dyn", "rolling", "x", "nul"] {
        assert!(!is_keyword(word), "{}", word);
    }
}

#[test]
fn time_written_out_reads_back_as_itself() {
    for text in ["00:00:00", "07:08:09.5", "23:59:59.123456789", "12:00:00.000000001"] {
        let t = parse_time(text).unwrap();
        let written = format!(
            "{:02}:{:02}:{:02}.{:09}",
            t / 3_600_000_000_000,
            t / 60_000_000_000 % 60,
            t / 1_000_000_000 % 60,
            t % 1_000_000_000
        );
        assert_eq!(parse_time(&written).unwrap(), t);
    }
}

#[test]
fn duration_is_the_sum_of_its_days_and_its_time() {
    for (days, time) in [(0i64, "00:00:01"), (3, "01:02:03"), (100, "23:59:59.000000001")] {
        let sum = days * NS_IN_DAY + parse_time(time).unwrap();
        assert_eq!(parse_duration(&format!("{}D{}", days, time)).unwrap(), sum);
        assert_eq!(parse_duration(&format!("-{}D{}", days, time)).unwrap(), -sum);
    }
}

#[test]
fn zone_that_was_not_found_is_utc() {
    assert_eq!(jasmine::temporal::zone_or_utc(None), "UTC");
    assert_eq!(jasmine::temporal::zone_or_utc(Some("Europe/Paris".to_owned())), "Europe/Paris");
    assert!(!jasmine::temporal::local_zone().is_empty());
}

#[test]
fn duration_with_more_behind_it_is_refused() {
    for text in ["1D00:00:00D9", "1D2D", "1D-1:00:00", "1D00:00:00.1.2"] {
        assert_eq!(parse_duration(text).unwrap_err(), format!("Not a valid duration, {}", text));
    }
    assert_eq!(parse_duration("-1D01:00:00").unwrap(), -NS_IN_DAY - 3_600_000_000_000);
}
