use sleepp::{next_step, non_tty_interval, width_to_clear, Duration, Step};

fn secs(s: u64) -> Duration {
    Duration::from_secs(s)
}

fn interval(remaining: Duration) -> Duration {
    non_tty_interval(remaining, secs(1), secs(60))
}

#[test]
fn interval_grows_with_remaining_time() {
    assert_eq!(interval(secs(7200)), secs(60));
    assert_eq!(interval(Duration::new(3600, 500_000_000)), secs(60));
    assert_eq!(interval(secs(3600)), secs(30));
    assert_eq!(interval(secs(601)), secs(30));
    assert_eq!(interval(secs(600)), secs(10));
    assert_eq!(interval(secs(61)), secs(10));
    assert_eq!(interval(secs(60)), secs(5));
    assert_eq!(interval(secs(11)), secs(5));
    assert_eq!(interval(secs(10)), secs(1));
    assert_eq!(interval(secs(0)), secs(1));
}

#[test]
fn interval_is_kept_within_bounds() {
    assert_eq!(non_tty_interval(secs(5), secs(2), secs(60)), secs(2));
    assert_eq!(non_tty_interval(secs(7200), secs(1), secs(20)), secs(20));
    assert_eq!(non_tty_interval(secs(100), Duration::new(0, 500_000_000), secs(7)), secs(7));
    assert_eq!(non_tty_interval(secs(7200), secs(3), secs(3)), secs(3));
}

#[test]
fn steps_of_the_timer_loop() {
    let (lo, hi) = (secs(1), secs(60));
    assert_eq!(next_step(true, secs(100), secs(60), true, secs(0), lo, hi), Step::Interrupted);
    assert_eq!(next_step(false, secs(60), secs(60), true, secs(0), lo, hi), Step::Finished);
    assert_eq!(next_step(false, secs(61), secs(60), false, secs(0), lo, hi), Step::Finished);
    assert_eq!(next_step(false, secs(30), secs(60), true, secs(0), lo, hi), Step::Redraw);
    assert_eq!(next_step(false, secs(30), secs(60), false, secs(5), lo, hi), Step::PrintLine);
    assert_eq!(
        next_step(false, secs(30), secs(60), false, Duration::new(4, 900_000_000), lo, hi),
        Step::Wait
    );
    assert_eq!(
        next_step(false, Duration::new(59, 999_999_999), secs(60), false, secs(1), lo, hi),
        Step::PrintLine
    );
    assert_eq!(next_step(false, secs(0), secs(60), false, secs(9999), lo, hi), Step::PrintLine);
}

#[test]
fn cleared_width_follows_bar() {
    assert_eq!(width_to_clear(true, 42, 79), 42);
    assert_eq!(width_to_clear(false, 42, 79), 79);
}
