use sleepp::{color_theme, hides_bar, plain_theme, theme_for, BarChars, BarStyle, BarVisibility, ColorMode};

#[test]
fn style_characters() {
    assert_eq!(BarStyle::Arrow.fill_char(), "=");
    assert_eq!(BarStyle::Arrow.empty_char(), " ");
    assert_eq!(BarStyle::Arrow.tip_char(), Some(">"));
    assert_eq!(BarStyle::Dot.fill_char(), "●");
    assert_eq!(BarStyle::Dot.empty_char(), "○");
    assert_eq!(BarStyle::Dot.tip_char(), None);
    assert_eq!(BarStyle::Block.fill_char(), "█");
    assert_eq!(BarStyle::Block.empty_char(), "░");
    assert_eq!(BarStyle::Block.tip_char(), None);
    assert_eq!(BarStyle::Hash.fill_char(), "#");
    assert_eq!(BarStyle::Hash.empty_char(), "-");
    assert_eq!(BarStyle::Hash.tip_char(), None);
}

fn s(text: &str) -> String {
    text.to_string()
}

#[test]
fn bar_chars_default_to_style() {
    let c = BarChars::from_options(BarStyle::Dot, None, None, None, s("["), s("]")).unwrap();
    assert_eq!(c.fill, "●");
    assert_eq!(c.empty, "○");
    assert_eq!(c.tip, None);
    assert_eq!(c.bar_left, "[");
    assert_eq!(c.bar_right, "]");
    let c = BarChars::from_options(BarStyle::Arrow, None, None, None, s("<"), s(">")).unwrap();
    assert_eq!(c.fill, "=");
    assert_eq!(c.empty, " ");
    assert_eq!(c.tip, Some(s(">")));
}

#[test]
fn bar_chars_overrides_win() {
    let c = BarChars::from_options(
        BarStyle::Arrow,
        Some(s("*")),
        Some(s(".")),
        Some(s("@")),
        s("|"),
        s("|"),
    )
    .unwrap();
    assert_eq!(c.fill, "*");
    assert_eq!(c.empty, ".");
    assert_eq!(c.tip, Some(s("@")));
    let c = BarChars::from_options(BarStyle::Hash, None, None, Some(s("é")), s("["), s("]")).unwrap();
    assert_eq!(c.tip, Some(s("é")));
}

#[test]
fn bar_chars_errors_in_order() {
    let e = |fill: Option<&str>, empty: Option<&str>, tip: Option<&str>, l: &str, r: &str| {
        BarChars::from_options(
            BarStyle::Arrow,
            fill.map(s),
            empty.map(s),
            tip.map(s),
            s(l),
            s(r),
        )
        .err()
        .unwrap()
    };
    assert_eq!(e(Some("ab"), None, None, "[", "]"), "--bar-fill must be a single character");
    assert_eq!(e(Some(""), None, None, "", "]"), "--bar-fill must be a single character");
    assert_eq!(e(None, Some(""), None, "[", "]"), "--bar-empty must be a single character");
    assert_eq!(e(None, None, None, "[[", "]"), "--bar-left must be a single character");
    assert_eq!(e(None, None, None, "[", ""), "--bar-right must be a single character");
    assert_eq!(e(None, None, Some("->"), "[", "]"), "--bar-tip must be a single character");
    assert_eq!(e(None, Some("xy"), Some("->"), "[[", "]"), "--bar-empty must be a single character");
}

#[test]
fn themes() {
    let c = color_theme();
    assert_eq!(c.bar_fill, "\x1b[32m");
    assert_eq!(c.bar_empty, "\x1b[2m");
    assert_eq!(c.bracket, "\x1b[2m");
    assert_eq!(c.remaining, "\x1b[33m");
    assert_eq!(c.elapsed, "\x1b[36m");
    assert_eq!(c.pct, "\x1b[1m");
    assert_eq!(c.done, "\x1b[1;32m");
    assert_eq!(c.reset, "\x1b[0m");
    let p = plain_theme();
    for f in [p.bar_fill, p.bar_empty, p.bracket, p.remaining, p.elapsed, p.pct, p.done, p.reset] {
        assert_eq!(f, "");
    }
}

#[test]
fn theme_follows_color_mode() {
    assert_eq!(theme_for(ColorMode::On, false).reset, "\x1b[0m");
    assert_eq!(theme_for(ColorMode::Off, true).reset, "");
    assert_eq!(theme_for(ColorMode::Auto, true).reset, "\x1b[0m");
    assert_eq!(theme_for(ColorMode::Auto, false).reset, "");
}

#[test]
fn bar_follows_visibility() {
    assert!(!hides_bar(BarVisibility::On, false));
    assert!(hides_bar(BarVisibility::Off, true));
    assert!(!hides_bar(BarVisibility::Auto, true));
    assert!(hides_bar(BarVisibility::Auto, false));
}
