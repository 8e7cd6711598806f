use sleepp::Duration;

#[test]
fn duration_parts() {
    let d = Duration::new(5, 250);
    assert_eq!(d.as_secs(), 5);
    assert_eq!(d.subsec_nanos(), 250);
    assert_eq!(Duration::from_secs(7).subsec_nanos(), 0);
    assert_eq!(Duration::zero().as_secs(), 0);
}

#[test]
fn duration_order_and_arithmetic() {
    let a = Duration::new(5, 250);
    let b = Duration::new(5, 300);
    let c = Duration::new(6, 0);
    assert!(a.is_shorter_than(&b));
    assert!(!b.is_shorter_than(&a));
    assert!(!a.is_shorter_than(&a));
    assert!(b.is_shorter_than(&c));
    assert_eq!(c.saturating_sub(&a), Duration::new(0, 999_999_750));
    assert_eq!(b.saturating_sub(&a), Duration::new(0, 50));
    assert_eq!(a.saturating_sub(&c), Duration::zero());
    assert_eq!(a.min(c), a);
    assert_eq!(c.min(a), a);
    assert_eq!(Duration::from_secs(9).clamp(a, c), c);
    assert_eq!(Duration::from_secs(1).clamp(a, c), a);
    assert_eq!(b.clamp(a, c), b);
}
