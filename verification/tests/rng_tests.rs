use tungsten_core::rng::Rng;

#[test]
fn seeded_sequence_is_deterministic() {
    let mut r = Rng::seed(42);
    assert_eq!(r.next_u64(), 15021278609987233951);
    assert_eq!(r.next_u64(), 5881210131331364753);
    assert_eq!(r.next_u64(), 18149643915985481100);
    let mut z = Rng::seed(0);
    assert_eq!(z.next_u64(), 5987356902031041503);
}

#[test]
fn ranges_follow_the_next_output() {
    let mut r = Rng::seed(42);
    assert_eq!(r.gen_range(1, 3), 2);
    let mut r = Rng::seed(42);
    assert_eq!(r.gen_i64(-5, 5), -1);
    let mut r = Rng::seed(42);
    assert_eq!(r.gen_range(5, 5), 5);
    assert_eq!(r.gen_i64(9, 3), 9);
    // Degenerate ranges do not step the generator.
    assert_eq!(r.next_u64(), 15021278609987233951);
}

#[test]
fn booleans_compare_low_bits_with_threshold() {
    let mut r = Rng::seed(7);
    assert!(r.gen_bool_below(2147483647));
    let mut r = Rng::seed(7);
    assert!(!r.gen_bool_below(716083516));
    let mut r = Rng::seed(7);
    assert!(r.gen_bool_below(716083517));
}

#[test]
fn pick_uses_gen_range_over_indices() {
    let items = [10, 20, 30];
    let mut r = Rng::seed(42);
    // 15021278609987233951 % 3 == 1
    assert_eq!(*r.pick(&items), 20);
    let one = [5];
    let mut r = Rng::seed(42);
    assert_eq!(*r.pick(&one), 5);
    assert_eq!(r.next_u64(), 15021278609987233951);
}
