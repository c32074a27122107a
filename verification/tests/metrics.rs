use dsfb::bench::{cov_inflate_weight, cov_inflate_weights, huber_weight};
use dsfb::bench_config::{BenchConfig, BenchIssue};
use dsfb::binary64::Binary64;
use dsfb::metrics::MetricsAccumulator;

fn w(x: f64) -> Binary64 {
    Binary64::from_bits(x.to_bits())
}

fn x(v: Binary64) -> f64 {
    f64::from_bits(v.to_bits())
}

fn ws(values: &[f64]) -> Vec<Binary64> {
    values.iter().map(|&v| w(v)).collect()
}

fn valid_config() -> BenchConfig {
    BenchConfig {
        schema_version: "1.0.0".to_string(),
        steps: 100,
        dt: w(0.1),
        n: 4,
        group_dims: vec![3, 2],
        noise_std: ws(&[0.1, 0.2]),
        process_noise_std: w(0.01),
        bandwidth_groups: vec![1],
        bandwidth_tau: w(0.5),
        corruption_group: 1,
        corruption_channel: 1,
        corruption_start: 40,
        corruption_duration: 10,
        corruption_amplitude: w(3.0),
        cov_inflate_factor: w(4.0),
        nis_threshold: w(3.0),
        nis_soft_scale: w(0.5),
        irls_delta: w(1.5),
        irls_max_iter: 8,
        irls_tol: w(1e-6),
        dsfb_alpha: w(1.0),
        dsfb_beta: w(0.1),
        dsfb_w_min: w(0.1),
        matrix_seed: 7,
        seeds: vec![1, 2],
        methods: vec!["equal".to_string()],
        alpha_values: None,
        beta_values: Some(ws(&[0.1, 0.2])),
    }
}

#[test]
fn metrics_follow_their_formulas() {
    let mut metrics = MetricsAccumulator::new(true);
    let errors = [0.5_f64, 2.0, f64::NAN, 1.5];
    let weights = [vec![1.0, 0.95], vec![0.85, 0.9], vec![0.1, 0.2], vec![0.89999, 1.0]];
    let active = [false, false, true, false];
    let mut peak = 0.0_f64;
    let mut sum_sq = 0.0_f64;
    for i in 0..4 {
        metrics.observe(w(errors[i]), Some(&ws(&weights[i])), active[i]);
        peak = peak.max(errors[i]);
        sum_sq += errors[i] * errors[i];
    }
    metrics.observe(w(0.25), None, false);
    peak = peak.max(0.25);
    sum_sq += 0.25 * 0.25;

    assert_eq!(metrics.count, 5);
    assert_eq!(metrics.false_downweight_total, 6);
    assert_eq!(metrics.false_downweight_count, 2);
    let summed = metrics.finalize();
    assert_eq!(x(summed.peak_err).to_bits(), peak.to_bits());
    assert!(x(summed.rms_err).is_nan() == (sum_sq / 5.0).sqrt().is_nan());
    assert_eq!(x(summed.false_downweight_rate.unwrap()).to_bits(), (2.0_f64 / 6.0).to_bits());
}

#[test]
fn metrics_of_finite_errors_are_bit_exact() {
    let mut metrics = MetricsAccumulator::new(false);
    let errors = [0.5_f64, 2.0, 0.125, 1.5];
    let mut sum_sq = 0.0_f64;
    for e in errors {
        metrics.observe(w(e), Some(&ws(&[0.0, 0.0])), false);
        sum_sq += e * e;
    }
    let summed = metrics.finalize();
    assert_eq!(x(summed.peak_err), 2.0);
    assert_eq!(x(summed.rms_err).to_bits(), (sum_sq / 4.0).sqrt().to_bits());
    assert!(summed.false_downweight_rate.is_none());
    assert_eq!(metrics.false_downweight_total, 0);
}

#[test]
fn metrics_of_nothing_are_zero() {
    let summed = MetricsAccumulator::new(true).finalize();
    assert_eq!(x(summed.peak_err), 0.0);
    assert_eq!(x(summed.rms_err), 0.0);
    assert_eq!(summed.false_downweight_rate.map(x), Some(0.0));
    let by_default = MetricsAccumulator::default();
    assert!(!by_default.expects_weights);
    assert!(by_default.finalize().false_downweight_rate.is_none());
}

#[test]
fn inflated_weight_is_reciprocal_held_to_unit() {
    for factor in [4.0_f64, 1.0, 0.5, 0.0, -3.0, 1e-12, 1e12, f64::NAN, f64::INFINITY] {
        let expected = (1.0 / factor.max(1e-9)).clamp(0.0, 1.0);
        assert_eq!(x(cov_inflate_weight(w(factor))).to_bits(), expected.to_bits(), "{factor}");
    }
    let weights: Vec<f64> = cov_inflate_weights(3, 1, w(4.0)).iter().map(|&v| x(v)).collect();
    assert_eq!(weights, vec![1.0, 0.25, 1.0]);
    let weights: Vec<f64> = cov_inflate_weights(2, 5, w(4.0)).iter().map(|&v| x(v)).collect();
    assert_eq!(weights, vec![1.0, 1.0]);
}

#[test]
fn huber_weight_follows_its_formula() {
    for (residual, variance, delta) in [
        (0.5_f64, 1.0_f64, 1.5_f64),
        (-3.0, 1.0, 1.5),
        (3.0, 4.0, 1.5),
        (3.1, 4.0, 1.5),
        (1e-3, 0.0, 1.5),
        (1.0, -1.0, 1.5),
        (f64::NAN, 1.0, 1.5),
        (2.0, 0.25, 0.75),
    ] {
        let sigma = variance.sqrt().max(1e-12);
        let abs_z = (residual / sigma).abs();
        let expected = if abs_z <= delta { 1.0 } else { delta / abs_z };
        let got = x(huber_weight(w(residual), w(variance), w(delta)));
        assert!(got.to_bits() == expected.to_bits() || (got.is_nan() && expected.is_nan()));
    }
}

#[test]
fn benchmark_configuration_reports_first_defect() {
    let config = valid_config();
    assert_eq!(config.validate(), Ok(()));
    assert_eq!(config.total_measurements(), Some(5));
    assert_eq!(config.group_count(), 2);
    assert!(!config.corruption_active(39));
    assert!(config.corruption_active(40));
    assert!(config.corruption_active(49));
    assert!(!config.corruption_active(50));

    let mut c = valid_config();
    c.seeds.clear();
    assert_eq!(c.validate(), Err(BenchIssue::NoSeeds));
    c.bandwidth_tau = w(-0.1);
    assert_eq!(c.validate(), Err(BenchIssue::BandwidthNegative));
    c.dsfb_beta = w(1.5);
    assert_eq!(c.validate(), Err(BenchIssue::DsfbBetaOutOfRange));
    c.dsfb_beta = w(0.0);
    assert_eq!(c.validate(), Err(BenchIssue::DsfbBetaOutOfRange));
    c.dsfb_w_min = w(f64::NAN);
    assert_eq!(c.validate(), Err(BenchIssue::MinimalWeightOutOfRange));
    c.irls_max_iter = 0;
    assert_eq!(c.validate(), Err(BenchIssue::NoIrlsIteration));
    c.corruption_duration = 0;
    assert_eq!(c.validate(), Err(BenchIssue::NoCorruptionDuration));
    c.corruption_start = 100;
    assert_eq!(c.validate(), Err(BenchIssue::CorruptionStartsTooLate));
    c.corruption_channel = 2;
    assert_eq!(c.validate(), Err(BenchIssue::CorruptionChannelOutOfRange));
    c.corruption_group = 2;
    assert_eq!(c.validate(), Err(BenchIssue::CorruptionGroupOutOfRange));
    c.noise_std = ws(&[0.1, 0.0]);
    assert_eq!(c.validate(), Err(BenchIssue::NoiseNotPositive));
    c.noise_std = ws(&[0.1]);
    assert_eq!(c.validate(), Err(BenchIssue::NoiseLength));
    c.group_dims = vec![3, 0];
    assert_eq!(c.validate(), Err(BenchIssue::EmptyGroup));
    c.group_dims = vec![];
    assert_eq!(c.validate(), Err(BenchIssue::NoGroups));
    c.dt = w(0.0);
    assert_eq!(c.validate(), Err(BenchIssue::TimeStepNotPositive));
    c.n = 0;
    assert_eq!(c.validate(), Err(BenchIssue::NoState));
    c.steps = 0;
    assert_eq!(c.validate(), Err(BenchIssue::NoSteps));
    assert_eq!(BenchIssue::NoSteps.message(), "steps must be > 0");
    assert_eq!(BenchIssue::DsfbBetaOutOfRange.message(), "dsfb_beta must be in (0, 1]");
}

#[test]
fn not_a_number_passes_the_sign_checks() {
    let mut c = valid_config();
    c.dt = w(f64::NAN);
    c.noise_std = ws(&[f64::NAN, 0.2]);
    c.dsfb_beta = w(f64::NAN);
    c.bandwidth_tau = w(f64::NAN);
    assert_eq!(c.validate(), Ok(()));
}

#[test]
fn total_measurements_reports_overflow() {
    let mut c = valid_config();
    c.group_dims = vec![usize::MAX, 1];
    assert_eq!(c.total_measurements(), None);
    c.group_dims = vec![usize::MAX - 1, 1];
    assert_eq!(c.total_measurements(), Some(usize::MAX));
}
