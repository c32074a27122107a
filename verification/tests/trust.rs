use dsfb::binary64::Binary64;
use dsfb::error::InputError;
use dsfb::trust::{
    calculate_trust_weights, normalize_weights, normalize_with_total, sum, total_usable,
    weights_are_convex, TrustStats,
};

fn pattern(x: f64) -> Binary64 {
    Binary64::from_bits(x.to_bits())
}

fn float(x: Binary64) -> f64 {
    f64::from_bits(x.to_bits())
}

fn patterns(xs: &[f64]) -> Vec<Binary64> {
    xs.iter().map(|&x| pattern(x)).collect()
}

fn floats(xs: &[Binary64]) -> Vec<f64> {
    xs.iter().map(|&x| float(x)).collect()
}

#[test]
fn test_trust_weights_uniform() {
    let residuals = patterns(&[0.1, 0.1, 0.1]);
    let mut ema_residuals = patterns(&[0.0, 0.0, 0.0]);
    let weights = floats(
        &calculate_trust_weights(&residuals, &mut ema_residuals, pattern(0.9), pattern(0.1))
            .expect("finite residuals"),
    );

    assert!((weights[0] - 1.0 / 3.0).abs() < 1e-10);
    assert!((weights[1] - 1.0 / 3.0).abs() < 1e-10);
    assert!((weights[2] - 1.0 / 3.0).abs() < 1e-10);
}

#[test]
fn test_trust_weights_sum_to_one() {
    let residuals = patterns(&[0.1, 1.0, 0.5]);
    let mut ema_residuals = patterns(&[0.0, 0.0, 0.0]);
    let weights = floats(
        &calculate_trust_weights(&residuals, &mut ema_residuals, pattern(0.9), pattern(0.1))
            .expect("finite residuals"),
    );

    let sum: f64 = weights.iter().sum();
    assert!((sum - 1.0).abs() < 1e-10);
}

#[test]
fn trust_weights_match_formula_bit_for_bit() {
    let residuals = [0.1_f64, -1.0, 0.5];
    let mut ema = [0.2_f64, 0.0, 0.7];
    let (rho, sigma0) = (0.9_f64, 0.1_f64);

    let mut ema_residuals = patterns(&ema);
    let weights = floats(
        &calculate_trust_weights(
            &patterns(&residuals),
            &mut ema_residuals,
            pattern(rho),
            pattern(sigma0),
        )
        .expect("finite residuals"),
    );

    let mut raw = [0.0_f64; 3];
    for k in 0..3 {
        ema[k] = rho * ema[k] + (1.0 - rho) * residuals[k].abs();
        raw[k] = 1.0 / (sigma0 + ema[k]);
    }
    let total = 0.0 + raw[0] + raw[1] + raw[2];
    for k in 0..3 {
        assert_eq!(float(ema_residuals[k]).to_bits(), ema[k].to_bits());
        assert_eq!(weights[k].to_bits(), (raw[k] / total).to_bits());
    }
}

#[test]
fn trust_weights_refuse_a_residual_that_is_not_finite() {
    let mut ema_residuals = patterns(&[0.5, 0.5]);
    let refused = calculate_trust_weights(
        &patterns(&[f64::NAN, 0.0]),
        &mut ema_residuals,
        pattern(0.5),
        pattern(1.0),
    );
    assert_eq!(refused.err(), Some(InputError::NotFinite { index: 0, bits: f64::NAN.to_bits() }));
    assert_eq!(floats(&ema_residuals), vec![0.5, 0.5]);

    let refused = calculate_trust_weights(
        &patterns(&[1.0, f64::NEG_INFINITY]),
        &mut ema_residuals,
        pattern(0.5),
        pattern(1.0),
    );
    assert_eq!(
        refused.err(),
        Some(InputError::NotFinite { index: 1, bits: f64::NEG_INFINITY.to_bits() })
    );
    assert_eq!(floats(&ema_residuals), vec![0.5, 0.5]);

    let taken = calculate_trust_weights(
        &patterns(&[1.5, 0.5]),
        &mut ema_residuals,
        pattern(0.5),
        pattern(1.0),
    )
    .expect("finite residuals");
    assert_eq!(floats(&ema_residuals), vec![1.0, 0.5]);
    assert_eq!(floats(&taken), vec![0.5 / (0.5 + 1.0 / 1.5), (1.0 / 1.5) / (0.5 + 1.0 / 1.5)]);
}

#[test]
fn trust_weights_refuse_another_number_of_residuals() {
    let mut ema_residuals = patterns(&[0.0, 0.0, 7.5]);
    let refused = calculate_trust_weights(
        &patterns(&[1.0, 1.0]),
        &mut ema_residuals,
        pattern(0.5),
        pattern(0.5),
    );
    assert_eq!(refused.err(), Some(InputError::LengthMismatch { expected: 3, got: 2 }));
    assert_eq!(floats(&ema_residuals), vec![0.0, 0.0, 7.5]);

    let refused = calculate_trust_weights(
        &patterns(&[1.0, 1.0, 1.0, f64::NAN]),
        &mut ema_residuals,
        pattern(0.5),
        pattern(0.5),
    );
    assert_eq!(refused.err(), Some(InputError::LengthMismatch { expected: 3, got: 4 }));
    assert_eq!(floats(&ema_residuals), vec![0.0, 0.0, 7.5]);
}

#[test]
fn sum_adds_from_left_to_right() {
    let xs = [1e16_f64, 1.0, -1e16, 1.0];
    let expected = (((0.0 + xs[0]) + xs[1]) + xs[2]) + xs[3];
    assert_eq!(float(sum(&patterns(&xs))).to_bits(), expected.to_bits());
    assert_eq!(float(sum(&patterns(&[]))).to_bits(), 0.0_f64.to_bits());
}

#[test]
fn normalize_divides_by_total() {
    let weights = floats(&normalize_weights(&patterns(&[1.0, 3.0])));
    assert_eq!(weights, vec![0.25, 0.75]);
}

#[test]
fn normalize_falls_back_to_uniform_on_zero_total() {
    let weights = floats(&normalize_weights(&patterns(&[0.0, 0.0, 0.0, 0.0])));
    assert_eq!(weights, vec![0.25, 0.25, 0.25, 0.25]);
}

#[test]
fn normalize_falls_back_on_nan_total() {
    let weights = floats(&normalize_weights(&patterns(&[f64::NAN, 1.0])));
    assert_eq!(weights, vec![0.5, 0.5]);
}

#[test]
fn normalize_threshold_is_exclusive_at_one_in_ten_to_the_twelve() {
    let at = 1e-12_f64;
    let above = f64::from_bits(at.to_bits() + 1);
    let below = f64::from_bits(at.to_bits() - 1);
    assert!(!total_usable(pattern(at)));
    assert!(!total_usable(pattern(below)));
    assert!(total_usable(pattern(above)));
    assert!(!total_usable(pattern(f64::NAN)));
    assert!(!total_usable(pattern(-1.0)));
    assert!(total_usable(pattern(f64::INFINITY)));

    assert_eq!(floats(&normalize_weights(&patterns(&[at]))), vec![1.0]);
    assert_eq!(floats(&normalize_weights(&patterns(&[at, 0.0]))), vec![0.5, 0.5]);
    assert_eq!(floats(&normalize_weights(&patterns(&[above, 0.0]))), vec![1.0, 0.0]);
}

#[test]
fn normalize_with_total_takes_the_total_as_given() {
    let scores = patterns(&[1.0, 2.0]);
    assert_eq!(floats(&normalize_with_total(&scores, pattern(4.0))), vec![0.25, 0.5]);
    assert_eq!(floats(&normalize_with_total(&scores, pattern(0.0))), vec![0.5, 0.5]);
}

#[test]
fn normalize_of_nothing_is_nothing() {
    assert!(normalize_weights(&patterns(&[])).is_empty());
}

#[test]
fn convexity_check_accepts_normalised_weights() {
    let weights = normalize_weights(&patterns(&[0.3, 1.7, 2.9, 0.01]));
    assert!(weights_are_convex(&weights));
    let total: f64 = floats(&weights).iter().sum();
    assert!((total - 1.0).abs() <= 1e-9);
    assert!(floats(&weights).iter().all(|w| (0.0..=1.0).contains(w)));
}

#[test]
fn convexity_check_rejects_what_is_not_convex() {
    assert!(!weights_are_convex(&patterns(&[0.5, 0.6])));
    assert!(!weights_are_convex(&patterns(&[1.5, -0.5])));
    assert!(!weights_are_convex(&patterns(&[f64::NAN, 1.0])));
    assert!(!weights_are_convex(&patterns(&[])));
    assert!(weights_are_convex(&patterns(&[1.0])));
    assert!(weights_are_convex(&patterns(&[0.5, 0.5 + 5e-10])));
    assert!(!weights_are_convex(&patterns(&[0.5, 0.5 + 5e-9])));
}

#[test]
fn fresh_trust_stats_have_zero_envelope_and_unit_weight() {
    let stats = TrustStats::new();
    assert_eq!(float(stats.residual_ema), 0.0);
    assert_eq!(float(stats.weight), 1.0);
    let by_default = TrustStats::default();
    assert_eq!(by_default.residual_ema.to_bits(), stats.residual_ema.to_bits());
    assert_eq!(by_default.weight.to_bits(), stats.weight.to_bits());
}

#[test]
fn scores_that_overflow_the_total_give_weights_that_are_not_convex() {
    let residuals = patterns(&[0.0, 0.0]);
    let mut ema_residuals = patterns(&[0.0, 0.0]);
    let weights = calculate_trust_weights(
        &residuals,
        &mut ema_residuals,
        pattern(0.9),
        pattern(1e-308),
    )
    .expect("finite residuals");
    assert_eq!(floats(&weights), vec![0.0, 0.0]);
    assert!(!weights_are_convex(&weights));

    let scores = patterns(&[1e308, 1e308]);
    assert_eq!(float(sum(&scores)), f64::INFINITY);
    assert_eq!(floats(&normalize_weights(&scores)), vec![0.0, 0.0]);
}
