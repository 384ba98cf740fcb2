use claude_statusline::format::{decimal_string, duration_short, lines, time_remaining};

#[test]
fn duration_seconds() {
    assert_eq!(duration_short(45_000), "45s");
}

#[test]
fn duration_minutes() {
    assert_eq!(duration_short(12 * 60_000), "12m");
}

#[test]
fn duration_hours_and_minutes() {
    assert_eq!(duration_short((3 * 3600 + 17 * 60) * 1_000), "3h17m");
}

#[test]
fn duration_days_and_hours() {
    assert_eq!(duration_short((4 * 86_400 + 2 * 3600) * 1_000), "4d2h");
}

#[test]
fn duration_zero() {
    assert_eq!(duration_short(0), "0s");
}

#[test]
fn time_remaining_future() {
    assert_eq!(time_remaining(1_000 + 3_600, 1_000), "1h0m");
}

#[test]
fn time_remaining_past() {
    assert_eq!(time_remaining(500, 1_000), "0s");
}

#[test]
fn lines_format() {
    assert_eq!(lines(24, 7), "+24/-7");
}

#[test]
fn duration_drops_seconds_below_milliseconds() {
    assert_eq!(duration_short(999), "0s");
    assert_eq!(duration_short(59_999), "59s");
    assert_eq!(duration_short(60_000), "1m");
    assert_eq!(duration_short(3_600_000), "1h0m");
    assert_eq!(duration_short(86_400_000), "1d0h");
}

#[test]
fn duration_of_u64_max() {
    // 18446744073709551 seconds: 213503982334 days, 14 hours.
    assert_eq!(duration_short(u64::MAX), "213503982334d14h");
}

#[test]
fn time_remaining_saturates() {
    // The gap saturates at i64::MAX seconds, the milliseconds at u64::MAX.
    assert_eq!(time_remaining(i64::MAX, i64::MIN), "213503982334d14h");
    assert_eq!(time_remaining(i64::MIN, i64::MAX), "0s");
    assert_eq!(time_remaining(1_000, 1_000), "0s");
}

#[test]
fn decimal_digits() {
    assert_eq!(decimal_string(0), "0");
    assert_eq!(decimal_string(7), "7");
    assert_eq!(decimal_string(10), "10");
    assert_eq!(decimal_string(1_234_567_890), "1234567890");
    assert_eq!(decimal_string(u64::MAX), "18446744073709551615");
}

#[test]
fn lines_zero_and_large() {
    assert_eq!(lines(0, 0), "+0/-0");
    assert_eq!(lines(1_000, 20), "+1000/-20");
}
