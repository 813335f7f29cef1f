use tungsten_core::interval::Interval;

#[test]
fn interval_basics() {
    let a = Interval::new(0, 100);
    let p = Interval::point(5);
    assert_eq!((p.min, p.max), (5, 5));
    assert!(p.is_subset_of(&a));
    assert!(!a.is_subset_of(&p));
    assert!(a.contains(0));
    assert!(a.contains(100));
    assert!(!a.contains(101));
    assert!(!a.contains(-1));
}

#[test]
fn interval_arithmetic_saturates() {
    let a = Interval::new(1, 10);
    let b = Interval::new(-3, 4);
    let s = a.add(&b);
    assert_eq!((s.min, s.max), (-2, 14));
    let d = a.sub(&b);
    assert_eq!((d.min, d.max), (-3, 13));
    let big = Interval::new(i64::MAX - 1, i64::MAX);
    let t = big.add(&Interval::new(5, 5));
    assert_eq!((t.min, t.max), (i64::MAX, i64::MAX));
    let low = Interval::new(i64::MIN, 0);
    let u = low.sub(&Interval::new(0, 1));
    assert_eq!((u.min, u.max), (i64::MIN, 0));
}

#[test]
fn interval_saturating_add_clamps_to_bound() {
    let pct = Interval::new(0, 100);
    let a = Interval::new(60, 90);
    let b = Interval::new(20, 30);
    let r = a.saturating_add(&b, &pct);
    assert_eq!((r.min, r.max), (80, 100));
    let c = Interval::new(-50, -10);
    let r2 = c.saturating_add(&Interval::new(0, 0), &pct);
    assert_eq!((r2.min, r2.max), (0, 0));
}
