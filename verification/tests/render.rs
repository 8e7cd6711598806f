use sleepp::{
    clear_wrapped_lines, color_theme, plain_theme, progress_bar_width, render_done,
    render_progress, width_from_terminal_size, BarChars, BarStyle, Duration,
};

fn secs(s: u64) -> Duration {
    Duration::from_secs(s)
}

fn chars(style: BarStyle) -> BarChars {
    BarChars::from_options(style, None, None, None, "[".to_string(), "]".to_string()).unwrap()
}

#[test]
fn terminal_width_leaves_one_column() {
    assert_eq!(width_from_terminal_size(Some(80)), 79);
    assert_eq!(width_from_terminal_size(Some(1)), 0);
    assert_eq!(width_from_terminal_size(Some(0)), 0);
    assert_eq!(width_from_terminal_size(None), 79);
}

#[test]
fn clearing_moves_up_over_wrapped_rows() {
    assert_eq!(clear_wrapped_lines(0, 80), "\r\x1b[J");
    assert_eq!(clear_wrapped_lines(80, 80), "\r\x1b[J");
    assert_eq!(clear_wrapped_lines(81, 80), "\x1b[1A\r\x1b[J");
    assert_eq!(clear_wrapped_lines(250, 80), "\x1b[3A\r\x1b[J");
    assert_eq!(clear_wrapped_lines(10, 0), "\r\x1b[J");
    assert_eq!(clear_wrapped_lines(2000, 10), "\x1b[199A\r\x1b[J");
}

#[test]
fn bar_widths() {
    let c = chars(BarStyle::Arrow);
    assert_eq!(progress_bar_width(secs(60), &c, 79), 54);
    assert_eq!(progress_bar_width(secs(60), &c, 20), 10);
    assert_eq!(progress_bar_width(secs(60), &c, 35), 10);
    assert_eq!(progress_bar_width(secs(60), &c, 36), 11);
    assert_eq!(progress_bar_width(secs(3700), &c, 79), 51);
    assert_eq!(progress_bar_width(secs(25), &c, 53), 30);
}

#[test]
fn progress_line_as_in_the_readme() {
    let line = render_progress(secs(13), secs(25), &chars(BarStyle::Hash), false, &plain_theme(), 53, " 51%", 15);
    assert_eq!(line, "[###############---------------] 12s remaining ( 51%)");
    assert_eq!(line.chars().count(), 53);
}

#[test]
fn done_line_as_in_the_readme() {
    let line = render_done(secs(25), &chars(BarStyle::Hash), false, &plain_theme(), 53);
    assert_eq!(line, "[##############################] Done!");
}

#[test]
fn progress_line_with_arrow_bar() {
    let line = render_progress(secs(30), secs(60), &chars(BarStyle::Arrow), false, &plain_theme(), 79, " 50%", 27);
    let expected = format!("[{}>{}]    30 remaining ( 50%)", "=".repeat(26), " ".repeat(27));
    assert_eq!(line, expected);
    assert_eq!(line.chars().count(), 79);
}

#[test]
fn progress_line_tip_only_inside_the_bar() {
    let c = chars(BarStyle::Arrow);
    let empty = render_progress(secs(0), secs(60), &c, false, &plain_theme(), 79, "  0%", 0);
    assert_eq!(empty, format!("[{}]  1:00 remaining (  0%)", " ".repeat(54)));
    let full = render_progress(secs(60), secs(60), &c, false, &plain_theme(), 79, "100%", 54);
    assert_eq!(full, format!("[{}]     0 remaining (100%)", "=".repeat(54)));
}

#[test]
fn progress_line_without_bar() {
    let line = render_progress(secs(13), secs(25), &chars(BarStyle::Arrow), true, &plain_theme(), 79, " 51%", 0);
    assert_eq!(line, "12s remaining ( 51%)");
}

#[test]
fn progress_line_remaining_is_never_negative() {
    let line = render_progress(secs(90), secs(60), &chars(BarStyle::Arrow), true, &plain_theme(), 79, "100%", 0);
    assert_eq!(line, "    0 remaining (100%)");
}

#[test]
fn progress_line_with_colors() {
    let line = render_progress(secs(30), secs(60), &chars(BarStyle::Arrow), true, &color_theme(), 79, " 50%", 0);
    assert_eq!(line, "\x1b[33m   30\x1b[0m remaining (\x1b[1m 50%\x1b[0m)");
    let with_bar = render_progress(secs(1), secs(10), &chars(BarStyle::Hash), false, &color_theme(), 20, " 10%", 1);
    assert_eq!(
        with_bar,
        format!(
            "\x1b[2m[\x1b[0m\x1b[32m#\x1b[0m\x1b[2m{}\x1b[0m\x1b[2m]\x1b[0m \x1b[33m 9s\x1b[0m remaining (\x1b[1m 10%\x1b[0m)",
            "-".repeat(9)
        )
    );
}

#[test]
fn progress_line_with_hours() {
    let line = render_progress(Duration::new(90, 500_000_000), secs(3700), &chars(BarStyle::Arrow), true, &plain_theme(), 79, "  2%", 0);
    assert_eq!(line, " 1:00:10 remaining (  2%)");
}

#[test]
fn done_line() {
    let c = chars(BarStyle::Arrow);
    assert_eq!(
        render_done(secs(60), &c, false, &plain_theme(), 79),
        format!("[{}] Done!", "=".repeat(54))
    );
    assert_eq!(render_done(secs(5), &c, true, &plain_theme(), 79), "Done!");
    assert_eq!(render_done(secs(5), &c, true, &color_theme(), 79), "\x1b[1;32mDone!\x1b[0m");
    assert_eq!(
        render_done(secs(10), &chars(BarStyle::Hash), false, &color_theme(), 20),
        format!("\x1b[2m[\x1b[0m\x1b[32m{}\x1b[0m\x1b[2m]\x1b[0m \x1b[1;32mDone!\x1b[0m", "#".repeat(10))
    );
}

#[test]
fn lines_fill_the_terminal_width() {
    let c = chars(BarStyle::Block);
    for total in [5u64, 45, 60, 3599, 3700, 360_000] {
        for width in [0usize, 30, 60, 79, 120, 200] {
            let cells = progress_bar_width(secs(total), &c, width);
            let line = render_progress(secs(total / 3), secs(total), &c, false, &plain_theme(), width, " 33%", cells / 3);
            let least = line.chars().count() - cells + 10;
            assert_eq!(line.chars().count(), width.max(least), "total={} width={}", total, width);
            let done = render_done(secs(total), &c, false, &plain_theme(), width);
            assert_eq!(done.chars().count(), cells + 8, "total={} width={}", total, width);
        }
    }
}

fn strip_escapes(s: &str) -> String {
    let mut out = String::new();
    let mut in_escape = false;
    for c in s.chars() {
        if in_escape {
            in_escape = c != 'm';
        } else if c == '\x1b' {
            in_escape = true;
        } else {
            out.push(c);
        }
    }
    out
}

#[test]
fn colors_only_wrap_the_line() {
    for style in [BarStyle::Arrow, BarStyle::Dot, BarStyle::Block, BarStyle::Hash] {
        let c = chars(style);
        for (e, t, filled) in [(0u64, 60u64, 0usize), (13, 25, 15), (30, 60, 27), (60, 60, 54), (90, 3700, 3)] {
            for no_bar in [false, true] {
                let colored = render_progress(secs(e), secs(t), &c, no_bar, &color_theme(), 79, " 50%", filled);
                let plain = render_progress(secs(e), secs(t), &c, no_bar, &plain_theme(), 79, " 50%", filled);
                assert_eq!(strip_escapes(&colored), plain);
                assert!(!colored.contains('\n'));
                let done_colored = render_done(secs(t), &c, no_bar, &color_theme(), 79);
                let done_plain = render_done(secs(t), &c, no_bar, &plain_theme(), 79);
                assert_eq!(strip_escapes(&done_colored), done_plain);
                assert!(!done_colored.contains('\n'));
            }
        }
    }
}
