use claude_statusline::bar::cells;
use claude_statusline::pace::{elapsed_in_window, pendulum, within_week, SEVEN_DAYS_SECS};

#[test]
fn cells_fill_then_shade() {
    assert_eq!(cells(0, 4), "░░░░");
    assert_eq!(cells(4, 4), "████");
    assert_eq!(cells(2, 4), "██░░");
    assert_eq!(cells(1, 4), "█░░░");
    assert_eq!(cells(1, 1), "█");
    assert_eq!(cells(0, 0), "");
}

#[test]
fn cells_past_width_have_no_shade() {
    assert_eq!(cells(3, 2), "███");
}

#[test]
fn elapsed_half_week_is_inside() {
    let resets_at = SEVEN_DAYS_SECS;
    assert_eq!(elapsed_in_window(resets_at, resets_at / 2), Some(SEVEN_DAYS_SECS / 2));
}

#[test]
fn elapsed_outside_window_is_none() {
    assert_eq!(elapsed_in_window(1_000, 10_000), None);
    assert_eq!(elapsed_in_window(1_000, -700_000), None);
}

#[test]
fn elapsed_window_bounds() {
    // Exclusive at the start, inclusive at the end.
    assert_eq!(elapsed_in_window(SEVEN_DAYS_SECS, 0), None);
    assert_eq!(elapsed_in_window(SEVEN_DAYS_SECS, 1), Some(1));
    assert_eq!(elapsed_in_window(SEVEN_DAYS_SECS, SEVEN_DAYS_SECS), Some(SEVEN_DAYS_SECS));
    assert_eq!(elapsed_in_window(SEVEN_DAYS_SECS, SEVEN_DAYS_SECS + 1), None);
}

#[test]
fn pendulum_has_pipe_and_marker() {
    let bar = pendulum(7, 7, 15);
    assert!(bar.contains('|'));
    assert!(bar.contains('█'));
    assert_eq!(bar.chars().count(), 15);
    assert_eq!(bar, "░░░░░░░|█░░░░░░");
}

#[test]
fn pendulum_tiny_widths_are_empty() {
    assert_eq!(pendulum(7, 7, 0), "");
    assert_eq!(pendulum(1, 1, 2), "");
}

#[test]
fn pendulum_pipe_at_start() {
    let bar = pendulum(0, 0, 15);
    assert!(bar.starts_with('|'));
    assert_eq!(bar.chars().count(), 15);
    assert_eq!(bar, "|█░░░░░░░░░░░░░");
}

#[test]
fn pendulum_pipe_at_end() {
    let bar = pendulum(14, 14, 15);
    assert!(bar.ends_with('|'));
    assert_eq!(bar.chars().count(), 15);
    assert_eq!(bar, "░░░░░░░░░░░░░█|");
}

#[test]
fn pendulum_clamps_positions() {
    assert_eq!(pendulum(100, 100, 5), "░░░█|");
    assert_eq!(pendulum(8, 5, 15), "░░░░░█░░|░░░░░░");
}

#[test]
fn within_week_bounds() {
    assert_eq!(within_week(0), None);
    assert_eq!(within_week(1), Some(1));
    assert_eq!(within_week(SEVEN_DAYS_SECS), Some(SEVEN_DAYS_SECS));
    assert_eq!(within_week(SEVEN_DAYS_SECS + 1), None);
    assert_eq!(within_week(i64::MIN), None);
}
