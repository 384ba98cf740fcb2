use claude_statusline::color::Color;
use claude_statusline::input::{
    ContextUsage, ContextWindow, Cost, Input, Model, PaceMark, Pr, RateLimits, Spend, Usage,
    Window, Workspace,
};
use claude_statusline::render::{
    columns_from, line_one, line_three, line_two, render, visible_width, RenderOptions,
};
use claude_statusline::theme::Theme;

// The session window resets at 1_749_250_000; `now` is one hour earlier, the
// weekly window resets 2d22h after it.
const NOW_EPOCH: i64 = 1_749_246_400;

fn usage(wide_cells: usize, narrow_cells: usize, color: Color) -> Usage {
    Usage { wide_cells, narrow_cells, color }
}

/// The full document: model `Vega 4.7`, 27% of the session and 34% of the
/// week used, context 39%, $1.234 over 12 minutes, +24/-7, PR #42 approved.
fn fixture() -> Input {
    Input {
        model: Model { display_name: "Vega 4.7".to_string() },
        workspace: Workspace { current_dir: "/Users/me/dev/prompt-statusline".to_string() },
        cost: Cost {
            total_cost_usd: Some(Spend { color: Color::Default, text: "$1.23".to_string() }),
            total_duration_ms: 720_000,
            total_lines_added: 24,
            total_lines_removed: 7,
        },
        context_window: ContextWindow {
            used_percentage: Some(ContextUsage { percent: 39, usage: usage(5, 2, Color::Green) }),
        },
        rate_limits: RateLimits {
            five_hour: Some(Window {
                used_percentage: usage(3, 1, Color::Green),
                used_label: "27".to_string(),
                resets_at: 1_749_250_000,
                pace: None,
            }),
            seven_day: Some(Window {
                used_percentage: usage(4, 1, Color::Green),
                used_label: "34".to_string(),
                resets_at: 1_749_498_400,
                pace: Some(PaceMark {
                    expected_pos: 8,
                    actual_pos: 5,
                    color: Color::Green,
                    delta_label: "-24".to_string(),
                }),
            }),
        },
        pr: Some(Pr { number: 42, review_state: "approved".to_string() }),
    }
}

/// The minimal document: a model name and nothing else.
fn minimal() -> Input {
    Input {
        model: Model { display_name: "Lyra 4.6".to_string() },
        workspace: Workspace { current_dir: String::new() },
        cost: Cost {
            total_cost_usd: None,
            total_duration_ms: 0,
            total_lines_added: 0,
            total_lines_removed: 0,
        },
        context_window: ContextWindow { used_percentage: None },
        rate_limits: RateLimits { five_hour: None, seven_day: None },
        pr: None,
    }
}

#[test]
fn line_one_plain_no_color() {
    let input = fixture();
    let opts = RenderOptions::new(Theme::Plain, false, NOW_EPOCH, 200);
    let s = line_one(&input, opts);
    assert!(s.contains("Sess ["));
    assert!(s.contains("Week ["));
    assert!(s.contains("Vega 4.7"));
    assert!(!s.contains("\u{1b}["));
}

#[test]
fn line_one_color_emits_ansi() {
    let input = fixture();
    let opts = RenderOptions::new(Theme::Plain, true, NOW_EPOCH, 200);
    let s = line_one(&input, opts);
    assert!(s.contains("\u{1b}["));
}

#[test]
fn line_two_full_fixture() {
    let input = fixture();
    let opts = RenderOptions::new(Theme::Plain, false, NOW_EPOCH, 200);
    let s = line_two(&input, opts);
    assert!(s.contains("Ctx ["));
    assert!(s.contains("Pace ["));
    assert!(s.contains("$1.23"));
    assert!(s.contains("12m"));
    assert!(s.contains("+24/-7"));
    assert!(s.contains("#42 approved"));
    // Dir and branch live on line 3 now.
    assert!(!s.contains("prompt-statusline"));
    assert!(!s.contains("main"));
}

#[test]
fn line_three_full_fixture() {
    let input = fixture();
    let opts = RenderOptions::new(Theme::Plain, false, NOW_EPOCH, 200);
    let s = line_three(&input, Some("main"), opts);
    assert!(s.contains("prompt-statusline"));
    assert!(s.contains("main"));
}

#[test]
fn line_two_omits_missing_segments() {
    let input = minimal();
    let opts = RenderOptions::new(Theme::Plain, false, 0, 200);
    let s = line_two(&input, opts);
    assert!(!s.contains("Ctx"));
    assert!(!s.contains("Pace"));
    assert!(!s.contains('$'));
    assert!(!s.contains('#'));
}

#[test]
fn visible_width_strips_ansi() {
    assert_eq!(visible_width("abc"), 3);
    assert_eq!(visible_width("\u{1b}[32mabc\u{1b}[0m"), 3);
    assert_eq!(visible_width("a\u{1b}[2mb\u{1b}[0mc"), 3);
}

#[test]
fn wide_terminal_keeps_everything() {
    let input = fixture();
    let opts = RenderOptions::new(Theme::Plain, false, NOW_EPOCH, 200);
    let out = render(&input, Some("main"), opts);
    assert!(out.contains("+24/-7"));
    assert!(out.contains("12m"));
    assert!(out.contains("Pace ["));
    let lines: Vec<_> = out.split('\n').collect();
    assert_eq!(lines.len(), 3);
    assert!(lines[2].contains("prompt-statusline"));
    assert!(lines[2].contains("main"));
}

#[test]
fn narrow_terminal_drops_lowest_priority_first() {
    let input = fixture();
    let opts = RenderOptions::new(Theme::Plain, false, NOW_EPOCH, 70);
    let out = render(&input, Some("main"), opts);
    assert!(!out.contains("+24/-7"));
    // Line 1's Sess and Week always survive.
    assert!(out.contains("Sess "));
    assert!(out.contains("Week "));
}

#[test]
fn very_narrow_terminal_shortens_line_one_bars() {
    let input = fixture();
    let opts = RenderOptions::new(Theme::Plain, false, NOW_EPOCH, 40);
    let out = render(&input, Some("main"), opts);
    assert!(out.contains("Sess "));
    assert!(out.contains("Week "));
}

#[test]
fn full_fixture_wide_lines() {
    let input = fixture();
    let opts = RenderOptions::new(Theme::Plain, false, NOW_EPOCH, 200);
    assert_eq!(
        render(&input, Some("main"), opts),
        "Sess [███░░░░░░░░░] 27% 1h0m · Week [████░░░░░░░░] 34% 2d22h · Vega 4.7\n\
         Ctx [█████░░░░░░░] 39% · Pace [░░░░░█░░|░░░░░░] -24% · $1.23 · 12m · +24/-7 · #42 approved\n\
         prompt-statusline · main"
    );
}

#[test]
fn narrow_fixture_sheds_in_priority_order() {
    let input = fixture();
    let opts = RenderOptions::new(Theme::Plain, false, NOW_EPOCH, 70);
    // Line 2 drops lines, duration and the PR before it fits in 70 columns;
    // line 1 is 71 wide, so its bars shrink to four cells.
    assert_eq!(
        render(&input, Some("main"), opts),
        "Sess [█░░░] 27% 1h0m · Week [█░░░] 34% 2d22h · Vega 4.7\n\
         Ctx [█████░░░░░░░] 39% · Pace [░░░░░█░░|░░░░░░] -24% · $1.23\n\
         prompt-statusline · main"
    );
}

#[test]
fn tiny_terminal_drops_all_of_line_two() {
    let input = fixture();
    let opts = RenderOptions::new(Theme::Plain, false, NOW_EPOCH, 10);
    let out = render(&input, None, opts);
    assert_eq!(
        out,
        "Sess [█░░░] 27% 1h0m · Week [█░░░] 34% 2d22h · Vega 4.7\nprompt-statusline"
    );
}

#[test]
fn minimal_fixture_is_one_line() {
    let input = minimal();
    let opts = RenderOptions::new(Theme::Plain, false, 0, 200);
    assert_eq!(render(&input, None, opts), "Lyra 4.6");
}

#[test]
fn color_wraps_bars_and_keeps_width() {
    let input = fixture();
    let opts = RenderOptions::new(Theme::Plain, true, NOW_EPOCH, 200);
    let s = line_one(&input, opts);
    assert!(s.starts_with("Sess [\u{1b}[32m███░░░░░░░░░\u{1b}[0m] 27% 1h0m"));
    let plain = line_one(&input, RenderOptions::new(Theme::Plain, false, NOW_EPOCH, 200));
    assert_eq!(visible_width(&s), visible_width(&plain));
}

#[test]
fn nerd_labels_on_line_three() {
    let input = fixture();
    let opts = RenderOptions::new(Theme::Nerd, false, NOW_EPOCH, 200);
    assert_eq!(line_three(&input, Some("main"), opts), "\u{f07b} prompt-statusline · \u{e0a0} main");
    assert_eq!(line_three(&input, Some(""), opts), "\u{f07b} prompt-statusline");
}

#[test]
fn line_three_directory_edge_cases() {
    let mut input = minimal();
    let opts = RenderOptions::new(Theme::Plain, false, 0, 200);
    input.workspace.current_dir = "/".to_string();
    assert_eq!(line_three(&input, Some("main"), opts), "main");
    input.workspace.current_dir = "/usr/bin/".to_string();
    assert_eq!(line_three(&input, None, opts), "bin");
}

#[test]
fn render_options_new_keeps_fields() {
    let opts = RenderOptions::new(Theme::Nerd, true, 5, 80);
    assert_eq!(opts.theme, Theme::Nerd);
    assert!(opts.color_enabled);
    assert_eq!(opts.now_epoch, 5);
    assert_eq!(opts.columns, 80);
}

/// `s` without its ANSI SGR sequences.
fn strip_sgr(s: &str) -> String {
    let mut out = String::new();
    let mut open = false;
    for c in s.chars() {
        if open {
            if c == 'm' {
                open = false;
            }
        } else if c == '\u{1b}' {
            open = true;
        } else {
            out.push(c);
        }
    }
    out
}

#[test]
fn color_does_not_change_collapse() {
    let input = fixture();
    for columns in [10, 40, 60, 70, 75, 85, 200] {
        let colored = render(&input, Some("main"), RenderOptions::new(Theme::Plain, true, NOW_EPOCH, columns));
        let plain = render(&input, Some("main"), RenderOptions::new(Theme::Plain, false, NOW_EPOCH, columns));
        assert_eq!(strip_sgr(&colored), plain);
    }
}

#[test]
fn collapsed_line_two_fits() {
    let input = fixture();
    for columns in [0, 10, 40, 60, 70, 75, 85, 90, 200] {
        let out = render(&input, Some("main"), RenderOptions::new(Theme::Plain, true, NOW_EPOCH, columns));
        let line2 = line_two(&input, RenderOptions::new(Theme::Plain, true, NOW_EPOCH, columns));
        // Line 2 of the output, when present, is a collapsed form of the full one.
        for line in out.split('\n').skip(1) {
            if line.contains("Ctx") || line.contains('$') {
                assert!(visible_width(line) <= columns);
                assert!(visible_width(line) <= visible_width(&line2));
            }
        }
    }
}

#[test]
fn columns_from_environment_value() {
    assert_eq!(columns_from(Some("120")), 120);
    assert_eq!(columns_from(Some("+7")), 7);
    assert_eq!(columns_from(Some("0")), 0);
    assert_eq!(columns_from(None), 80);
    assert_eq!(columns_from(Some("")), 80);
    assert_eq!(columns_from(Some("abc")), 80);
    assert_eq!(columns_from(Some(" 90")), 80);
    assert_eq!(columns_from(Some("-3")), 80);
    assert_eq!(columns_from(Some("99999999999999999999999")), 80);
}
