use yt_yapper::commands::utils::{duration_to_time, parse_time, time_to_duration};

#[test]
fn renders_hours_minutes_seconds() {
    assert_eq!(duration_to_time(0), "0:00:00");
    assert_eq!(duration_to_time(59), "0:00:59");
    assert_eq!(duration_to_time(61), "0:01:01");
    assert_eq!(duration_to_time(3661), "1:01:01");
    assert_eq!(duration_to_time(86399), "23:59:59");
}

#[test]
fn rendering_wraps_at_one_day() {
    assert_eq!(duration_to_time(86400), "0:00:00");
    assert_eq!(duration_to_time(90061), "1:01:01");
    assert_eq!(duration_to_time(u64::MAX), "7:00:15");
}

#[test]
fn reads_three_two_and_one_fields() {
    assert_eq!(time_to_duration(&"1:02:03".to_string()), 3723);
    assert_eq!(time_to_duration(&"02:03".to_string()), 123);
    assert_eq!(time_to_duration(&"45".to_string()), 45);
    assert_eq!(time_to_duration(&"0:90".to_string()), 90);
    assert_eq!(time_to_duration(&"1:90".to_string()), 150);
}

#[test]
fn reads_other_field_counts_as_zero() {
    assert_eq!(time_to_duration(&"1:2:3:4".to_string()), 0);
    assert_eq!(parse_time("1:2:3:4:5"), Some(0));
}

#[test]
fn reads_fields_as_u64_from_str_does() {
    assert_eq!(parse_time("+5"), Some(5));
    assert_eq!(parse_time("007"), Some(7));
    assert_eq!(parse_time("18446744073709551615"), Some(u64::MAX));
}

#[test]
fn refuses_fields_that_do_not_read() {
    assert_eq!(parse_time(""), None);
    assert_eq!(parse_time("abc"), None);
    assert_eq!(parse_time("1::2"), None);
    assert_eq!(parse_time("-5"), None);
    assert_eq!(parse_time("+"), None);
    assert_eq!(parse_time("1:2:x"), None);
    assert_eq!(parse_time(" 1"), None);
    assert_eq!(parse_time("18446744073709551616"), None);
}

#[test]
fn refuses_totals_that_overflow() {
    assert_eq!(parse_time("18446744073709551615:0"), None);
    assert_eq!(parse_time("5124095576030431:0:0"), Some(18446744073709551600));
    assert_eq!(parse_time("5124095576030431:0:15"), Some(u64::MAX));
    assert_eq!(parse_time("5124095576030431:0:16"), None);
    assert_eq!(parse_time("5124095576030432:0:0"), None);
    assert_eq!(parse_time("18446744073709551615:0:0"), None);
    assert_eq!(parse_time("0:18446744073709551555"), Some(18446744073709551555));
    assert_eq!(parse_time("1:18446744073709551555"), Some(u64::MAX));
    assert_eq!(parse_time("1:18446744073709551556"), None);
}

#[test]
fn reading_a_rendered_time_gives_the_time_of_day() {
    for secs in [0u64, 1, 59, 60, 3599, 3600, 45296, 86399, 86400, 123456789, u64::MAX] {
        assert_eq!(time_to_duration(&duration_to_time(secs)), secs % 86400);
    }
}
