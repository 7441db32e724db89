use fast_float_compare::Float;
use std::cmp::Ordering;

#[test]
fn test_nans_and_infs() {
    let nan = Float::from_bits(f64::NAN.to_bits());
    let inf = Float::from_bits(f64::INFINITY.to_bits());
    let neg_inf = Float::from_bits(f64::NEG_INFINITY.to_bits());

    assert!(nan.is_none());
    assert!(inf.is_none());
    assert!(neg_inf.is_none());
}

#[test]
fn test_f64_roundtrip() {
    let test_values = vec![1.23, -4.56, 0.0, 1234.5678, -0.00123, 100.0, -100.0];

    for &value in &test_values {
        let raw = Float::from_bits(f64::to_bits(value));
        let roundtrip = f64::from_bits(raw.unwrap().to_bits());
        assert!(
            value == roundtrip,
            "Failed roundtrip for {}: got {}",
            value,
            roundtrip
        );
    }
}

#[test]
fn test_cmp() {
    let a = Float::from_bits(f64::to_bits(1.23));
    let b = Float::from_bits(f64::to_bits(4.56));
    assert!(a < b);

    let c = Float::from_bits(f64::to_bits(-2.0));
    let d = Float::from_bits(f64::to_bits(-2.0)); // Same value for equality test
    let e = Float::from_bits(f64::to_bits(1.23)); // Same as a for equality test
    let f = Float::from_bits(f64::to_bits(-5.67));

    // Test less than
    assert!(a < b);
    assert!(c < b);
    assert!(f < c);

    // Test greater than
    assert!(b > a);
    assert!(b > c);
    assert!(c > f);

    // Test less than or equal to
    assert!(a <= b);
    assert!(c <= b);
    assert!(c <= d);
    assert!(a <= e);

    // Test greater than or equal to
    assert!(b >= a);
    assert!(b >= c);
    assert!(d >= c);
    assert!(e >= a);

    // Test equality
    assert!(c == d);
    assert!(a == e);
    assert!(a != b);
    assert!(c != f);
}

#[test]
fn test_roundtrip_is_bit_exact() {
    let patterns: Vec<u64> = vec![
        0u64,                              // +0.0
        0x8000000000000000,                // -0.0
        1,                                 // smallest positive subnormal
        0x000fffffffffffff,                // largest subnormal
        0x8000000000000001,                // smallest-magnitude negative subnormal
        f64::MIN_POSITIVE.to_bits(),       // smallest normal
        f64::MAX.to_bits(),                // largest finite
        f64::MIN.to_bits(),                // most negative finite
        f64::to_bits(1.0),
        f64::to_bits(-1.0),
        f64::to_bits(1.23),
        f64::to_bits(1234.5678),
        f64::to_bits(-0.00123),
    ];
    for &bits in &patterns {
        let raw = Float::from_bits(bits).unwrap();
        assert_eq!(
            raw.to_bits(),
            bits,
            "roundtrip changed the pattern {:#018x}",
            bits
        );
    }
}

#[test]
fn test_new_matches_decomposition() {
    // 1.0 is sign-positive, exponent field 1023, mantissa the bare leading bit
    let built = Float::new(0x10000000000000, 1023, true);
    let decomposed = Float::from_bits(f64::to_bits(1.0)).unwrap();
    assert!(built == decomposed);
    assert_eq!(f64::from_bits(built.to_bits()), 1.0);
}

#[test]
fn test_ordering_matches_f64_order() {
    let values = vec![
        -1.0e300, -4.56, -2.0, -0.00123, -1.0e-310, 0.0, 1.0e-310, 1.23, 4.56, 100.0, 1.0e300,
    ];
    for &x in &values {
        for &y in &values {
            let dx = Float::from_bits(f64::to_bits(x)).unwrap();
            let dy = Float::from_bits(f64::to_bits(y)).unwrap();
            assert_eq!(
                dx.cmp(&dy),
                x.partial_cmp(&y).unwrap(),
                "order differs from f64 for ({}, {})",
                x,
                y
            );
        }
    }
}

#[test]
fn test_signed_zero_divergence() {
    // The documented deliberate divergence from IEEE comparison: the
    // decomposition of -0.0 is ordered strictly below that of +0.0.
    let nz = Float::from_bits(f64::to_bits(-0.0)).unwrap();
    let pz = Float::from_bits(f64::to_bits(0.0)).unwrap();
    assert_eq!(nz.cmp(&pz), Ordering::Less);
    assert_eq!(pz.cmp(&nz), Ordering::Greater);
    assert!(nz != pz);
    // while native comparison calls the two zeros equal
    assert_eq!((-0.0f64).partial_cmp(&0.0), Some(Ordering::Equal));
}

#[test]
fn test_total_order_consistency() {
    let values = vec![-5.67, -2.0, -0.00123, -0.0, 0.0, 1.23, 4.56, 1234.5678];
    let raws: Vec<Float> = values
        .iter()
        .map(|&v| Float::from_bits(f64::to_bits(v)).unwrap())
        .collect();
    // exactly one of <, ==, > holds for every pair, and swapping reverses it
    for x in &raws {
        for y in &raws {
            let xy = x.cmp(y);
            let yx = y.cmp(x);
            assert_eq!(xy == Ordering::Equal, x == y);
            assert_eq!(xy == Ordering::Less, yx == Ordering::Greater);
            assert_eq!(xy == Ordering::Greater, yx == Ordering::Less);
        }
    }
    // transitivity over every ascending triple
    for x in &raws {
        for y in &raws {
            for z in &raws {
                if x.cmp(y) == Ordering::Less && y.cmp(z) == Ordering::Less {
                    assert_eq!(x.cmp(z), Ordering::Less);
                }
            }
        }
    }
}

#[test]
fn test_sort_scenario() {
    let values = vec![1.23, -4.56, 0.0, 1234.5678, -0.00123, 100.0, -100.0];

    let mut raws: Vec<Float> = values
        .iter()
        .map(|&v| Float::from_bits(f64::to_bits(v)).unwrap())
        .collect();
    raws.sort_by(|a, b| a.cmp(b));

    let mut native = values.clone();
    native.sort_by(|a, b| a.partial_cmp(b).unwrap());

    let sorted: Vec<f64> = raws.iter().map(|r| f64::from_bits(r.to_bits())).collect();
    assert_eq!(sorted, native);
}

#[test]
fn test_boundary_exponent_transition() {
    // straddle the smallest normal magnitude, ~2.2250738585072014e-308
    let smallest_normal = f64::MIN_POSITIVE;
    let largest_subnormal = f64::from_bits(smallest_normal.to_bits() - 1);
    let next_normal = f64::from_bits(smallest_normal.to_bits() + 1);

    for value in [largest_subnormal, smallest_normal, next_normal] {
        let raw = Float::from_bits(value.to_bits()).unwrap();
        assert_eq!(raw.to_bits(), value.to_bits());
        let neg = Float::from_bits((-value).to_bits()).unwrap();
        assert_eq!(neg.to_bits(), (-value).to_bits());
    }

    let below = Float::from_bits(largest_subnormal.to_bits()).unwrap();
    let at = Float::from_bits(smallest_normal.to_bits()).unwrap();
    let above = Float::from_bits(next_normal.to_bits()).unwrap();
    assert_eq!(below.cmp(&at), Ordering::Less);
    assert_eq!(at.cmp(&above), Ordering::Less);
}
