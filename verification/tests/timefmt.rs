use sleepp::{duration_display_width, format_duration_fixed, hour_digits, prettify_duration, Duration};

fn secs(s: u64) -> Duration {
    Duration::from_secs(s)
}

#[test]
fn hour_digits_is_at_least_two() {
    assert_eq!(hour_digits(secs(0)), 2);
    assert_eq!(hour_digits(secs(3599)), 2);
    assert_eq!(hour_digits(secs(3600)), 2);
    assert_eq!(hour_digits(secs(36_000)), 2);
}

#[test]
fn hour_digits_counts_hour_digits() {
    assert_eq!(hour_digits(secs(360_000)), 3);
    assert_eq!(hour_digits(secs(3600 * 12_345)), 5);
    assert_eq!(hour_digits(secs(u64::MAX)), 16);
}

#[test]
fn prettify_blanks_leading_zero_groups() {
    assert_eq!(prettify_duration("00:00:05"), format!("{}5", " ".repeat(7)));
    assert_eq!(prettify_duration("00:01:30"), "    1:30");
    assert_eq!(prettify_duration("01:01:40"), " 1:01:40");
    assert_eq!(prettify_duration("12:34"), "12:34");
    assert_eq!(prettify_duration("001:01:01"), " 01:01:01");
}

#[test]
fn prettify_edge_cases() {
    assert_eq!(prettify_duration(""), "");
    assert_eq!(prettify_duration("0"), "0");
    assert_eq!(prettify_duration("00:"), "   ");
    assert_eq!(prettify_duration("0s"), "0s");
    assert_eq!(prettify_duration("00"), " 0");
}

#[test]
fn fixed_format_with_hours() {
    assert_eq!(format_duration_fixed(secs(90), secs(3700)), "    1:30");
    assert_eq!(format_duration_fixed(secs(3700), secs(3700)), " 1:01:40");
    assert_eq!(format_duration_fixed(secs(0), secs(3700)), format!("{}0", " ".repeat(7)));
    assert_eq!(format_duration_fixed(secs(360_000), secs(360_000)), "100:00:00");
    assert_eq!(format_duration_fixed(secs(3661), secs(360_000)), " 01:01:01");
}

#[test]
fn fixed_format_with_minutes() {
    assert_eq!(format_duration_fixed(secs(90), secs(120)), " 1:30");
    assert_eq!(format_duration_fixed(secs(5), secs(120)), "    5");
    assert_eq!(format_duration_fixed(secs(0), secs(120)), "    0");
    assert_eq!(format_duration_fixed(secs(600), secs(3599)), "10:00");
}

#[test]
fn fixed_format_with_seconds() {
    assert_eq!(format_duration_fixed(secs(7), secs(30)), " 7s");
    assert_eq!(format_duration_fixed(secs(30), secs(30)), "30s");
    assert_eq!(format_duration_fixed(secs(3), secs(5)), "3s");
    assert_eq!(format_duration_fixed(Duration::new(4, 999_999_999), secs(5)), "4s");
}

#[test]
fn display_width_follows_total() {
    assert_eq!(duration_display_width(secs(5)), 2);
    assert_eq!(duration_display_width(secs(10)), 3);
    assert_eq!(duration_display_width(secs(59)), 3);
    assert_eq!(duration_display_width(secs(60)), 5);
    assert_eq!(duration_display_width(secs(3599)), 5);
    assert_eq!(duration_display_width(secs(3600)), 8);
    assert_eq!(duration_display_width(secs(360_000)), 9);
}

#[test]
fn fixed_strings_keep_the_display_width() {
    for total in [5u64, 9, 10, 59, 60, 3599, 3600, 3700, 86_399, 360_000] {
        let width = duration_display_width(secs(total));
        for d in [0u64, 1, 9, 10, 59, 60, 61, 3599, 3600, 3661, total / 2, total] {
            if d <= total {
                let text = format_duration_fixed(secs(d), secs(total));
                assert_eq!(text.chars().count(), width, "d={} total={}", d, total);
            }
        }
    }
}

#[test]
fn prettify_keeps_width() {
    for s in ["00:00:00", "00:00:07", "00:12:07", "01:00:00", "000:00:01", "0", "05"] {
        assert_eq!(prettify_duration(s).chars().count(), s.chars().count());
    }
}
