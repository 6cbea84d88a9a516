use sat_bot::util::{
    are_within_10_seconds, degrees_to_string, duration_between, format_pass_time, i64_to_string,
    metres_to_string, u64_to_string, usize_to_string,
};

#[test]
fn duration_shows_minutes_and_seconds() {
    assert_eq!(duration_between(1000, 1300), "5m 0s");
    assert_eq!(duration_between(0, 59), "0m 59s");
    assert_eq!(duration_between(0, 61), "1m 1s");
}

#[test]
fn duration_leaves_whole_hours_out() {
    assert_eq!(duration_between(0, 3600 + 5 * 60 + 3), "5m 3s");
    assert_eq!(duration_between(0, 86_400 + 2 * 3600 + 7), "0m 7s");
}

#[test]
fn duration_of_a_negative_span() {
    assert_eq!(duration_between(61, 0), "-1m -1s");
    assert_eq!(duration_between(3661, 0), "-1m -1s");
}

#[test]
fn pass_time_has_both_markers_and_the_duration() {
    assert_eq!(format_pass_time(1000, 1300), "<t:1000> - <t:1300:t> (5m 0s)");
    assert_eq!(format_pass_time(-5, 5), "<t:-5> - <t:5:t> (0m 10s)");
}

#[test]
fn ten_seconds_is_not_within() {
    assert!(are_within_10_seconds(1000, 1009));
    assert!(are_within_10_seconds(1009, 1000));
    assert!(are_within_10_seconds(7, 7));
    assert!(!are_within_10_seconds(1000, 1010));
    assert!(!are_within_10_seconds(1010, 1000));
}

#[test]
fn integers_in_decimal() {
    assert_eq!(i64_to_string(0), "0");
    assert_eq!(i64_to_string(7), "7");
    assert_eq!(i64_to_string(-7), "-7");
    assert_eq!(i64_to_string(1_700_000_000), "1700000000");
    assert_eq!(i64_to_string(i64::MAX), "9223372036854775807");
    assert_eq!(i64_to_string(i64::MIN), "-9223372036854775808");
    assert_eq!(usize_to_string(0), "0");
    assert_eq!(usize_to_string(10), "10");
    assert_eq!(usize_to_string(25338), "25338");
}

#[test]
fn degrees_have_no_zeros_at_the_end() {
    assert_eq!(degrees_to_string(0), "0");
    assert_eq!(degrees_to_string(20_000_000), "20");
    assert_eq!(degrees_to_string(90_000_000), "90");
    assert_eq!(degrees_to_string(35_120_000), "35.12");
    assert_eq!(degrees_to_string(35_100_000), "35.1");
    assert_eq!(degrees_to_string(1), "0.000001");
    assert_eq!(degrees_to_string(10), "0.00001");
    assert_eq!(degrees_to_string(1_000_001), "1.000001");
    assert_eq!(degrees_to_string(123_456_789), "123.456789");
    assert_eq!(degrees_to_string(500_000), "0.5");
    assert_eq!(degrees_to_string(50_000), "0.05");
}

#[test]
fn degrees_below_zero() {
    assert_eq!(degrees_to_string(-120_000), "-0.12");
    assert_eq!(degrees_to_string(-179_999_999), "-179.999999");
    assert_eq!(degrees_to_string(-1_000_000), "-1");
    assert_eq!(degrees_to_string(i64::MIN), "-9223372036854.775808");
    assert_eq!(degrees_to_string(i64::MAX), "9223372036854.775807");
}

#[test]
fn metres_have_three_places() {
    assert_eq!(metres_to_string(0), "0");
    assert_eq!(metres_to_string(35_000), "35");
    assert_eq!(metres_to_string(35_500), "35.5");
    assert_eq!(metres_to_string(35_005), "35.005");
    assert_eq!(metres_to_string(-1_500), "-1.5");
    assert_eq!(metres_to_string(1), "0.001");
    assert_eq!(metres_to_string(8_848_860), "8848.86");
}

#[test]
fn naturals_in_decimal() {
    assert_eq!(u64_to_string(0), "0");
    assert_eq!(u64_to_string(9), "9");
    assert_eq!(u64_to_string(10), "10");
    assert_eq!(u64_to_string(1_234_567_890), "1234567890");
    assert_eq!(u64_to_string(u64::MAX), "18446744073709551615");
}

#[test]
fn the_longest_spans_that_a_duration_holds() {
    let longest = 9_223_372_036_854_775;
    assert_eq!(duration_between(0, longest), "12m 55s");
    assert_eq!(duration_between(longest, 0), "-12m -55s");
    assert_eq!(duration_between(-longest, 0), "12m 55s");
    assert_eq!(duration_between(-4_000_000_000_000_000, 5_223_372_036_854_775), "12m 55s");
    assert_eq!(
        format_pass_time(0, longest),
        "<t:0> - <t:9223372036854775:t> (12m 55s)"
    );
    assert!(!are_within_10_seconds(0, longest));
    assert!(!are_within_10_seconds(longest, 0));
    assert!(are_within_10_seconds(i64::MAX, i64::MAX - 9));
    assert!(!are_within_10_seconds(i64::MIN, i64::MIN + 10));
}

#[test]
fn the_clock_shows_a_time_after_2020() {
    assert!(sat_bot::util::current_utc() > 1_577_836_800);
}
