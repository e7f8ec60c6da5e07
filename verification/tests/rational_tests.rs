use transcode::rational::{rescale, Rational};

fn tb(num: i32, den: i32) -> Rational {
    Rational::new(num, den)
}

#[test]
fn rescale_identity() {
    assert_eq!(rescale(42, tb(1, 25), tb(1, 25)), 42);
    assert_eq!(rescale(-42, tb(1, 25), tb(1, 25)), -42);
    assert_eq!(rescale(0, tb(3, 7), tb(3, 7)), 0);
}

#[test]
fn rescale_exact_values() {
    // 3 ticks of 1/25 s are 0.12 s, which is 6 ticks of 1/50 s.
    assert_eq!(rescale(3, tb(1, 25), tb(1, 50)), 6);
    // 1 tick of 1/25 s is 3600 ticks of 1/90000 s.
    assert_eq!(rescale(1, tb(1, 25), tb(1, 90000)), 3600);
    // 48000 ticks of 1/48000 s are one second, which is 25 ticks of 1/25 s.
    assert_eq!(rescale(48000, tb(1, 48000), tb(1, 25)), 25);
    assert_eq!(rescale(-3, tb(1, 25), tb(1, 50)), -6);
}

#[test]
fn rescale_round_trip_when_exact() {
    let a = tb(1, 25);
    let b = tb(1, 90000);
    for t in [-1000i64, -1, 0, 1, 7, 24, 25, 1000] {
        assert_eq!(rescale(rescale(t, a, b), b, a), t);
    }
}

#[test]
fn rescale_truncates_toward_zero() {
    // Half a tick truncates down ...
    assert_eq!(rescale(1, tb(1, 2), tb(1, 1)), 0);
    // ... toward zero also for negative timestamps.
    assert_eq!(rescale(-1, tb(1, 2), tb(1, 1)), 0);
    assert_eq!(rescale(3, tb(1, 2), tb(1, 1)), 1);
    assert_eq!(rescale(-3, tb(1, 2), tb(1, 1)), -1);
    // A truncated timestamp cannot round-trip: 1 tick of 1/2 s became 0.
    assert_eq!(rescale(rescale(1, tb(1, 2), tb(1, 1)), tb(1, 1), tb(1, 2)), 0);
}

#[test]
fn rescale_saturates_at_the_64_bit_range() {
    let huge = tb(1000000, 1);
    let unit = tb(1, 1);
    assert_eq!(rescale(i64::MAX, huge, unit), i64::MAX);
    assert_eq!(rescale(i64::MIN, huge, unit), i64::MIN);
}

#[test]
fn invert_swaps_numerator_and_denominator() {
    let rate = tb(30000, 1001);
    let base = rate.invert();
    assert_eq!(base.num, 1001);
    assert_eq!(base.den, 30000);
}
