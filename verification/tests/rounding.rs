use dsfb::binary64::Binary64;

fn pat(x: f64) -> Binary64 {
    Binary64::from_bits(x.to_bits())
}

fn candidates() -> Vec<f64> {
    let mut out = vec![
        0.0,
        -0.0,
        0.25,
        0.5,
        0.49999999999999994,
        0.5000000000000001,
        0.75,
        1.0,
        1.5,
        2.5,
        -0.5,
        -1.5,
        -2.5,
        -0.49999999999999994,
        1e-320,
        -1e-320,
        f64::MIN_POSITIVE,
        2147483646.5,
        2147483647.0,
        2147483647.4999998,
        2147483647.5,
        2147483648.0,
        -2147483648.0,
        -2147483648.5,
        -2147483649.0,
        4294967295.5,
        4503599627370495.5,
        4503599627370496.0,
        9007199254740991.0,
        9007199254740992.0,
        18446744073709549568.0,
        18446744073709551615.0,
        18446744073709551616.0,
        1e300,
        -1e300,
        f64::MAX,
        f64::INFINITY,
        f64::NEG_INFINITY,
        f64::NAN,
    ];
    let mut state: u64 = 0xABCD_EF01_2345_6789;
    for _ in 0..4000 {
        state ^= state << 13;
        state ^= state >> 7;
        state ^= state << 17;
        out.push(f64::from_bits(state));
        out.push((state % 100_000_001) as f64 / 1000.0 - 50_000.0);
        out.push(((state >> 20) % 4001) as f64 / 4.0 - 500.0);
        let exponent = 1000 + (state >> 50) % 90;
        out.push(f64::from_bits((exponent << 52) | (state & 0x000F_FFFF_FFFF_FFFF)));
    }
    out
}

#[test]
fn rounding_to_i32_agrees_with_round_and_cast() {
    for x in candidates() {
        assert_eq!(pat(x).round_to_i32(), x.round() as i32, "{x:e}");
    }
}

#[test]
fn rounding_to_usize_agrees_with_round_and_cast() {
    for x in candidates() {
        assert_eq!(pat(x).round_to_usize(), x.round() as usize, "{x:e}");
    }
}

#[test]
fn ceiling_to_usize_agrees_with_ceil_and_cast() {
    for x in candidates() {
        assert_eq!(pat(x).ceil_to_usize(), x.ceil() as usize, "{x:e}");
    }
}

#[test]
fn magnitudes_are_taken_apart() {
    let parts = pat(6.75).split();
    assert_eq!(parts.whole, Some(6));
    assert!(parts.half_or_more);
    assert!(parts.has_fraction);
    let parts = pat(-6.25).split();
    assert_eq!(parts.whole, Some(6));
    assert!(!parts.half_or_more);
    assert!(parts.has_fraction);
    let parts = pat(1024.0).split();
    assert_eq!(parts.whole, Some(1024));
    assert!(!parts.has_fraction);
    assert_eq!(pat(1e30).split().whole, None);
    assert_eq!(pat(f64::INFINITY).split().whole, None);
    let parts = pat(5e-324).split();
    assert_eq!(parts.whole, Some(0));
    assert!(parts.has_fraction);
    assert!(!parts.half_or_more);
}
