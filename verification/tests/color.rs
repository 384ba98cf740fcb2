use claude_statusline::color::{enabled, Color};

#[test]
fn no_color_flag_overrides() {
    assert!(!enabled(true, None));
    assert!(!enabled(true, Some("")));
}

#[test]
fn no_color_env_disables() {
    assert!(!enabled(false, Some("1")));
}

#[test]
fn empty_no_color_env_does_not_disable() {
    assert!(enabled(false, Some("")));
}

#[test]
fn defaults_enabled() {
    assert!(enabled(false, None));
}

#[test]
fn ansi_codes_per_color() {
    assert_eq!(Color::Default.ansi_open(), "");
    assert_eq!(Color::Dim.ansi_open(), "\x1b[2m");
    assert_eq!(Color::Green.ansi_open(), "\x1b[32m");
    assert_eq!(Color::Yellow.ansi_open(), "\x1b[33m");
    assert_eq!(Color::Red.ansi_open(), "\x1b[31m");
}

#[test]
fn ansi_close_resets_all_but_default() {
    assert_eq!(Color::Default.ansi_close(), "");
    assert_eq!(Color::Dim.ansi_close(), "\x1b[0m");
    assert_eq!(Color::Green.ansi_close(), "\x1b[0m");
    assert_eq!(Color::Red.ansi_close(), "\x1b[0m");
}
