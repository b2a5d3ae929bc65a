use diffmig::number::differ;

fn float_differs(a: f64, b: f64) -> bool {
    (a - b).abs() > 0.01
}

fn agrees(a: f64, b: f64) {
    assert_eq!(
        differ(a.to_bits(), b.to_bits()),
        float_differs(a, b),
        "{:?} against {:?}",
        a,
        b
    );
}

#[test]
fn tolerance_of_one_hundredth() {
    assert!(!differ(1.000f64.to_bits(), 1.009f64.to_bits()));
    assert!(differ(1.000f64.to_bits(), 1.02f64.to_bits()));
}

#[test]
fn equal_numbers_never_differ() {
    for x in [0.0, -0.0, 1.0, -1.0, 0.01, 1e-320, 1e300, -1e300, f64::MAX, f64::MIN_POSITIVE] {
        assert!(!differ(x.to_bits(), x.to_bits()));
    }
    assert!(!differ(0.0f64.to_bits(), (-0.0f64).to_bits()));
}

#[test]
fn agrees_with_float_arithmetic_at_the_edge() {
    let t = 0.01f64;
    let above = f64::from_bits(t.to_bits() + 1);
    let below = f64::from_bits(t.to_bits() - 1);
    for base in [0.0, 1.0, -1.0, 0.5, 2.0, 100.0, 0.005, -0.005, 1e15, 4e15, 1e16, 1e-3, 1e-300] {
        for step in [t, above, below, 2.0 * t, t / 2.0, 0.0100000000000001, 0.0099999999999999] {
            agrees(base, base + step);
            agrees(base, base - step);
            agrees(base + step, base);
            agrees(-base, step - base);
        }
    }
    agrees(0.0, t);
    agrees(0.0, above);
    agrees(0.0, below);
    agrees(t, 0.0);
    agrees(-t, 0.0);
    agrees(0.005, -0.005);
    agrees(0.005, -0.0050000000000000001);
    agrees(0.0050000000000000001, -0.0050000000000000010);
}

#[test]
fn agrees_with_float_arithmetic_on_many_pairs() {
    let mut state: u64 = 0x9e37_79b9_7f4a_7c15;
    let mut next = move || {
        state ^= state << 13;
        state ^= state >> 7;
        state ^= state << 17;
        state
    };
    for _ in 0..200_000 {
        let a = f64::from_bits(next());
        let b = f64::from_bits(next());
        agrees(a, b);
        let near = f64::from_bits(a.to_bits().wrapping_add(next() % 64));
        agrees(a, near);
        let c = ((next() % 4_000_000) as f64) / 1_000_000.0 - 2.0;
        let d = c + ((next() % 40_001) as f64) / 1_000_000.0 - 0.02;
        agrees(c, d);
        let e = f64::from_bits(0x3f84_7ae1_47ae_0000 + next() % 0x4000);
        agrees(c, c + e);
        agrees(c + e, c);
        agrees(-c, e - c);
    }
}

#[test]
fn nan_and_infinity_follow_float_arithmetic() {
    let values = [f64::NAN, f64::INFINITY, f64::NEG_INFINITY, 0.0, 1.0, -1.0, f64::MAX, f64::MIN];
    for a in values {
        for b in values {
            agrees(a, b);
        }
    }
}
