use dsfb::binary64::Binary64;

fn of(x: f64) -> Binary64 {
    Binary64::from_bits(x.to_bits())
}

fn to(x: Binary64) -> f64 {
    f64::from_bits(x.to_bits())
}

fn same(a: f64, b: f64) -> bool {
    a.to_bits() == b.to_bits() || (a.is_nan() && b.is_nan())
}

fn samples() -> Vec<f64> {
    let mut out = vec![
        0.0,
        -0.0,
        1.0,
        -1.0,
        0.5,
        0.1,
        0.2,
        0.3,
        1.0 / 3.0,
        2.0,
        3.0,
        10.0,
        1e-12,
        1e-300,
        1e300,
        1e308,
        -1e308,
        f64::MAX,
        f64::MIN,
        f64::MIN_POSITIVE,
        f64::MIN_POSITIVE / 2.0,
        f64::from_bits(1),
        f64::from_bits(0x000F_FFFF_FFFF_FFFF),
        f64::from_bits(0x0000_0000_8000_0000),
        f64::from_bits(0x0000_0000_FFFF_FFFF),
        f64::from_bits(0x0000_0001_0000_0000),
        f64::from_bits(0x0008_0000_0000_0000),
        f64::from_bits(0x0000_0000_0000_0003),
        -f64::from_bits(0x0000_0000_0010_0001),
        f64::EPSILON,
        1.0 + f64::EPSILON,
        1.0 - f64::EPSILON / 2.0,
        4503599627370496.0,
        9007199254740992.0,
        9007199254740993.0,
        123456.789,
        -987.654321e-7,
        std::f64::consts::PI,
        std::f64::consts::E,
        f64::INFINITY,
        f64::NEG_INFINITY,
        f64::NAN,
    ];
    let mut state: u64 = 0x9E37_79B9_7F4A_7C15;
    for _ in 0..200 {
        state ^= state << 13;
        state ^= state >> 7;
        state ^= state << 17;
        out.push(f64::from_bits(state));
        out.push((state % 2001) as f64 / 1000.0 - 1.0);
    }
    out
}

#[test]
fn addition_agrees_with_hardware() {
    for &a in &samples() {
        for &b in &samples() {
            let got = to(of(a).add_rounded(of(b)));
            assert!(same(got, a + b), "{a:e} + {b:e}: {got:e} vs {:e}", a + b);
        }
    }
}

#[test]
fn subtraction_agrees_with_hardware() {
    for &a in &samples() {
        for &b in &samples() {
            let got = to(of(a).sub_rounded(of(b)));
            assert!(same(got, a - b), "{a:e} - {b:e}: {got:e} vs {:e}", a - b);
        }
    }
}

#[test]
fn multiplication_agrees_with_hardware() {
    for &a in &samples() {
        for &b in &samples() {
            let got = to(of(a).mul_rounded(of(b)));
            assert!(same(got, a * b), "{a:e} * {b:e}: {got:e} vs {:e}", a * b);
        }
    }
}

#[test]
fn division_agrees_with_hardware() {
    for &a in &samples() {
        for &b in &samples() {
            let got = to(of(a).div_rounded(of(b)));
            assert!(same(got, a / b), "{a:e} / {b:e}: {got:e} vs {:e}", a / b);
        }
    }
}

#[test]
fn square_root_agrees_with_hardware() {
    for &a in &samples() {
        let got = to(of(a).sqrt_rounded());
        assert!(same(got, a.sqrt()), "sqrt {a:e}: {got:e} vs {:e}", a.sqrt());
    }
}

#[test]
fn arithmetic_has_literal_values() {
    assert_eq!(to(of(1.0).add_rounded(of(2.0))), 3.0);
    assert_eq!(to(of(1.0).sub_rounded(of(2.0))), -1.0);
    assert_eq!(to(of(3.0).mul_rounded(of(4.0))), 12.0);
    assert_eq!(to(of(3.0).div_rounded(of(4.0))), 0.75);
    assert_eq!(to(of(9.0).sqrt_rounded()), 3.0);
    assert_eq!(to(of(1.0).div_rounded(of(0.0))), f64::INFINITY);
    assert!(to(of(0.0).div_rounded(of(0.0))).is_nan());
    assert!(to(of(-1.0).sqrt_rounded()).is_nan());
}

#[test]
fn comparisons_agree_with_hardware() {
    for &a in &samples() {
        for &b in &samples() {
            assert_eq!(of(a).lt(of(b)), a < b, "{a:e} < {b:e}");
            assert_eq!(of(a).le(of(b)), a <= b, "{a:e} <= {b:e}");
            assert_eq!(of(a).gt(of(b)), a > b, "{a:e} > {b:e}");
            assert_eq!(of(a).ge(of(b)), a >= b, "{a:e} >= {b:e}");
        }
    }
}

#[test]
fn classification_agrees_with_hardware() {
    for &a in &samples() {
        assert_eq!(of(a).is_finite(), a.is_finite());
        assert_eq!(of(a).is_nan(), a.is_nan());
        assert_eq!(of(a).is_sign_negative(), a.is_sign_negative());
        assert!(same(to(of(a).abs()), a.abs()));
        assert!(same(to(of(a).neg()), -a));
    }
}

#[test]
fn zero_and_one_are_what_they_say() {
    assert_eq!(Binary64::zero().to_bits(), 0.0_f64.to_bits());
    assert_eq!(Binary64::one().to_bits(), 1.0_f64.to_bits());
}

#[test]
fn counts_convert_as_casts_do() {
    let mut counts: Vec<u64> = vec![
        0,
        1,
        2,
        3,
        7,
        8,
        1000,
        4096,
        (1 << 52) - 1,
        1 << 52,
        (1 << 53) - 1,
        1 << 53,
        (1 << 53) + 1,
        (1 << 53) + 2,
        (1 << 53) + 3,
        (1 << 54) + 2,
        (1 << 54) + 6,
        (1 << 60) + 127,
        (1 << 60) + 128,
        (1 << 60) + 129,
        (1 << 60) + 384,
        u64::MAX - 1024,
        u64::MAX - 1023,
        u64::MAX,
    ];
    let mut state: u64 = 0x2545_F491_4F6C_DD1D;
    for shift in 0..64 {
        state ^= state << 13;
        state ^= state >> 7;
        state ^= state << 17;
        counts.push(state >> shift);
    }
    for n in counts {
        assert_eq!(Binary64::from_u64(n).to_bits(), (n as f64).to_bits(), "{n}");
        if n <= usize::MAX as u64 {
            assert_eq!(Binary64::from_count(n as usize).to_bits(), (n as usize as f64).to_bits());
        }
    }
}

#[test]
fn arithmetic_agrees_with_hardware_on_random_patterns() {
    let mut state = 0x0DDB_1A5E_5BAD_5EED_u64;
    let mut draw = move || {
        state ^= state << 13;
        state ^= state >> 7;
        state ^= state << 17;
        state
    };
    for round in 0..60_000 {
        let mut a = f64::from_bits(draw());
        let mut b = f64::from_bits(draw());
        if round % 3 == 0 {
            // Keep the exponents close so that sums and quotients round.
            b = f64::from_bits((a.to_bits() & 0xFFF0_0000_0000_0000) | (b.to_bits() >> 12));
        }
        if round % 7 == 0 {
            // Reach into the subnormal range.
            a = f64::from_bits(a.to_bits() & 0x800F_FFFF_FFFF_FFFF);
        }
        assert!(same(to(of(a).add_rounded(of(b))), a + b), "{a:e} + {b:e}");
        assert!(same(to(of(a).sub_rounded(of(b))), a - b), "{a:e} - {b:e}");
        assert!(same(to(of(a).mul_rounded(of(b))), a * b), "{a:e} * {b:e}");
        assert!(same(to(of(a).div_rounded(of(b))), a / b), "{a:e} / {b:e}");
        assert!(same(to(of(a).sqrt_rounded()), a.sqrt()), "sqrt {a:e}");
        assert!(same(to(of(b).abs().sqrt_rounded()), b.abs().sqrt()), "sqrt {b:e}");
    }
}

#[test]
fn square_root_of_subnormal_numbers_agrees_with_hardware() {
    let mut patterns: Vec<u64> = vec![
        1,
        2,
        3,
        0x3FF,
        0x400,
        0x401,
        0x7FF,
        0x800,
        0x7FFF_FFFF,
        0x8000_0000,
        0x8000_0001,
        0xC000_0000,
        0xFFFF_FFFF,
        0x1_0000_0000,
        0x0007_FFFF_FFFF_FFFF,
        0x0008_0000_0000_0000,
        0x000F_FFFF_FFFF_FFFE,
        0x000F_FFFF_FFFF_FFFF,
        0x0010_0000_0000_0000,
        0x0010_0000_0000_0001,
    ];
    let mut state = 0x5EED_0F_5AB5_u64;
    for round in 0..40_000u64 {
        state ^= state << 13;
        state ^= state >> 7;
        state ^= state << 17;
        let width = 1 + round % 52;
        patterns.push((state >> (64 - width)) | (1 << (width - 1)));
    }
    for bits in patterns {
        let x = f64::from_bits(bits);
        let got = of(x).sqrt_rounded();
        assert_eq!(got.to_bits(), x.sqrt().to_bits(), "sqrt of pattern {bits:#x}");
    }
    assert_eq!(of(1.05e-157).mul_rounded(of(1.05e-157)).sqrt_rounded().to_bits(), {
        let square: f64 = 1.05e-157 * 1.05e-157;
        square.sqrt().to_bits()
    });
}

#[test]
fn square_root_of_special_values() {
    assert_eq!(of(0.0).sqrt_rounded().to_bits(), 0.0_f64.to_bits());
    assert_eq!(of(-0.0).sqrt_rounded().to_bits(), (-0.0_f64).to_bits());
    assert_eq!(of(f64::INFINITY).sqrt_rounded().to_bits(), f64::INFINITY.to_bits());
    assert!(to(of(f64::NAN).sqrt_rounded()).is_nan());
    assert!(to(of(f64::NEG_INFINITY).sqrt_rounded()).is_nan());
    assert!(to(of(-1.0).sqrt_rounded()).is_nan());
    assert!(to(of(-5e-324).sqrt_rounded()).is_nan());
    assert!(to(of(-f64::MAX).sqrt_rounded()).is_nan());
    assert_eq!(of(f64::MAX).sqrt_rounded().to_bits(), f64::MAX.sqrt().to_bits());
    assert_eq!(of(f64::MIN_POSITIVE).sqrt_rounded().to_bits(), f64::MIN_POSITIVE.sqrt().to_bits());
    assert_eq!(of(5e-324).sqrt_rounded().to_bits(), 5e-324_f64.sqrt().to_bits());
    assert_eq!(of(4.0).sqrt_rounded().to_bits(), 2.0_f64.to_bits());
}
