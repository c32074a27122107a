use dsfb::binary64::Binary64;
use dsfb::error::{ConfigurationError, Field, InputError};
use dsfb::params::DsfbParams;
use dsfb::sim::{
    peak_error_during_impulse, recovery_time, rms_error, run_simulation, Estimator,
    FreqOnlyObserver, Noise, SimConfig, SimStep, Simulation, SimulationError, TrueState,
};
use rand::SeedableRng;
use rand_distr::{Distribution, Normal};

fn flt(x: Binary64) -> f64 {
    f64::from_bits(x.to_bits())
}

fn bin(x: f64) -> Binary64 {
    Binary64::from_bits(x.to_bits())
}

fn bins(xs: &[f64]) -> Vec<Binary64> {
    xs.iter().map(|&x| bin(x)).collect()
}

fn drawn_noise(config: &SimConfig) -> Vec<Noise> {
    let mut rng = rand::rngs::StdRng::seed_from_u64(config.seed);
    let noise_dist = Normal::new(0.0, flt(config.sigma_noise)).unwrap();
    let alpha_dist = Normal::new(0.0, flt(config.sigma_alpha)).unwrap();
    (0..config.steps)
        .map(|_| {
            let first = noise_dist.sample(&mut rng);
            let second = noise_dist.sample(&mut rng);
            let slew = alpha_dist.sample(&mut rng);
            Noise { first: bin(first), second: bin(second), slew: bin(slew) }
        })
        .collect()
}

fn quiet(steps: usize) -> Vec<Noise> {
    vec![Noise { first: bin(0.0), second: bin(0.0), slew: bin(0.0) }; steps]
}

fn record_with_errors(mean: f64, freqonly: f64, dsfb: f64) -> SimStep {
    let zero = bin(0.0);
    SimStep {
        t: zero,
        phi_true: zero,
        y1: zero,
        y2: zero,
        phi_mean: zero,
        phi_freqonly: zero,
        phi_dsfb: zero,
        err_mean: bin(mean),
        err_freqonly: bin(freqonly),
        err_dsfb: bin(dsfb),
        w2: zero,
        s2: zero,
    }
}

#[test]
fn test_simulation_runs() {
    let config = SimConfig { steps: 100, ..Default::default() };
    let params = DsfbParams::default();
    let noise = drawn_noise(&config);
    let results = run_simulation(config, params, &noise).expect("simulation should run");
    assert_eq!(results.len(), 100);
}

#[test]
fn test_rms_error() {
    let errors = bins(&[0.1, 0.2, 0.3]);
    let rms = flt(rms_error(&errors));
    let expected = ((0.01_f64 + 0.04 + 0.09) / 3.0).sqrt();
    assert!((rms - expected).abs() < 1e-10);
}

#[test]
fn rms_error_is_bit_exact() {
    let errors = [0.1_f64, 0.25, 3.5, 1e-3];
    let mut sum_sq = 0.0_f64;
    for e in errors {
        sum_sq += e * e;
    }
    let expected = (sum_sq / errors.len() as f64).sqrt();
    assert_eq!(flt(rms_error(&bins(&errors))).to_bits(), expected.to_bits());
    assert_eq!(flt(rms_error(&bins(&[3.0, 4.0, 3.0, 4.0]))), 12.5_f64.sqrt());
    assert!(flt(rms_error(&bins(&[]))).is_nan());
}

#[test]
fn default_configuration_has_documented_values() {
    let config = SimConfig::default();
    assert_eq!(flt(config.dt), 0.01);
    assert_eq!(config.steps, 1000);
    assert_eq!(flt(config.sigma_noise), 0.05);
    assert_eq!(flt(config.sigma_alpha), 0.01);
    assert_eq!(flt(config.drift_beta), 0.1);
    assert_eq!(config.impulse_start, 300);
    assert_eq!(config.impulse_duration, 100);
    assert_eq!(flt(config.impulse_amplitude), 1.0);
    assert_eq!(config.seed, 42);
}

#[test]
fn impulse_window_is_half_open() {
    let config = SimConfig::default();
    assert!(!config.in_impulse(299));
    assert!(config.in_impulse(300));
    assert!(config.in_impulse(399));
    assert!(!config.in_impulse(400));
}

#[test]
fn frequency_only_observer_follows_its_formulas() {
    let mut observer = FreqOnlyObserver::new(bin(0.5), bin(0.1));
    let (mut phi, mut omega) = (0.0_f64, 0.0_f64);
    let dt = 0.01_f64;
    for ys in [[1.0_f64, 1.5], [0.25, -0.75], [2.0, 2.0]] {
        let got = flt(observer.step(&bins(&ys), bin(dt)));
        let phi_pred = phi + omega * dt;
        let mean = (0.0 + ys[0] + ys[1]) / 2.0;
        let residual = mean - phi_pred;
        phi = phi_pred + 0.5 * residual;
        omega = omega + 0.1 * residual;
        assert_eq!(got.to_bits(), phi.to_bits());
        assert_eq!(flt(observer.omega).to_bits(), omega.to_bits());
    }
}

#[test]
fn truth_propagates_by_its_formulas() {
    let mut truth = TrueState::new(bin(1.0), bin(0.5), bin(0.25));
    truth.propagate(bin(0.5), bin(0.125));
    assert_eq!(flt(truth.phi), 1.25);
    assert_eq!(flt(truth.omega), 0.625);
    assert_eq!(flt(truth.alpha), 0.375);
}

#[test]
fn quiet_run_records_truth_drift_and_impulse() {
    let config = SimConfig { steps: 400, ..Default::default() };
    let results =
        run_simulation(config, DsfbParams::default(), &quiet(400)).expect("simulation should run");

    let first = results[0];
    assert_eq!(flt(first.t), 0.0);
    assert_eq!(flt(first.phi_true), 0.0);
    assert_eq!(flt(first.y1), 0.0);
    assert_eq!(flt(first.y2), 0.0);

    let mut phi_true = 0.0_f64;
    for (step, record) in results.iter().enumerate() {
        let t = step as f64 * 0.01;
        assert_eq!(flt(record.t).to_bits(), t.to_bits());
        assert_eq!(flt(record.phi_true).to_bits(), phi_true.to_bits());
        assert_eq!(flt(record.y1).to_bits(), (phi_true + 0.0).to_bits());
        let mut y2 = phi_true + 0.1 * t + 0.0;
        if (300..400).contains(&step) {
            y2 += 1.0;
        }
        assert_eq!(flt(record.y2).to_bits(), y2.to_bits());
        let mean = (flt(record.y1) + y2) / 2.0;
        assert_eq!(flt(record.phi_mean).to_bits(), mean.to_bits());
        assert_eq!(flt(record.err_mean).to_bits(), (mean - phi_true).abs().to_bits());
        phi_true += 0.5 * 0.01;
    }
    assert!(flt(results[350].w2) < 0.5);
    assert!(flt(results[350].s2) > flt(results[299].s2));
}

#[test]
fn simulation_counts_its_steps() {
    let mut sim =
        Simulation::new(SimConfig::default(), DsfbParams::default()).expect("valid parameters");
    assert_eq!(sim.steps_taken(), 0);
    sim.advance(Noise { first: bin(0.1), second: bin(-0.1), slew: bin(0.0) })
        .expect("finite measurements");
    assert_eq!(sim.steps_taken(), 1);
}

#[test]
fn simulation_refuses_non_finite_measurement_and_stays() {
    let mut sim =
        Simulation::new(SimConfig::default(), DsfbParams::default()).expect("valid parameters");
    let error = sim
        .advance(Noise { first: bin(0.0), second: bin(f64::INFINITY), slew: bin(0.0) })
        .expect_err("must refuse");
    assert_eq!(error, InputError::NotFinite { index: 1, bits: f64::INFINITY.to_bits() });
    assert_eq!(sim.steps_taken(), 0);
    let record = sim
        .advance(Noise { first: bin(0.0), second: bin(0.0), slew: bin(0.0) })
        .expect("finite measurements");
    assert_eq!(flt(record.t), 0.0);
    assert_eq!(flt(record.phi_true), 0.0);
}

#[test]
fn run_reports_why_it_came_to_nothing() {
    let config = SimConfig { steps: 3, ..Default::default() };
    assert_eq!(
        run_simulation(config, DsfbParams::default(), &quiet(2)).expect_err("too little noise"),
        SimulationError::NoiseLength { expected: 3, got: 2 }
    );

    let mut bad = DsfbParams::default();
    bad.rho = bin(1.5);
    assert_eq!(
        run_simulation(config, bad, &quiet(3)).expect_err("bad parameters"),
        SimulationError::Configuration(ConfigurationError::NotInUnitInterval {
            field: Field::Rho,
            index: None,
            bits: 1.5_f64.to_bits()
        })
    );

    let mut noise = quiet(3);
    noise[1].first = bin(f64::NAN);
    let refused =
        run_simulation(config, DsfbParams::default(), &noise).expect_err("bad measurement");
    assert!(matches!(
        refused,
        SimulationError::Measurement { step: 1, error: InputError::NotFinite { index: 0, .. } }
    ));
    match refused {
        SimulationError::Measurement { error, .. } => {
            let number = error.offending().expect("a number was refused");
            assert!(f64::from_bits(number.to_bits()).is_nan());
        }
        other => panic!("unexpected refusal: {other:?}"),
    }
}

#[test]
fn peak_error_is_largest_in_window() {
    let results: Vec<SimStep> = [9.0, 0.5, 2.5, f64::NAN, 1.5, 7.0]
        .iter()
        .map(|&e| record_with_errors(e, e / 2.0, -e))
        .collect();
    assert_eq!(flt(peak_error_during_impulse(&results, 1, 4, Estimator::Mean)), 2.5);
    assert_eq!(flt(peak_error_during_impulse(&results, 1, 4, Estimator::FreqOnly)), 1.25);
    assert_eq!(flt(peak_error_during_impulse(&results, 1, 4, Estimator::Dsfb)), 0.0);
    assert_eq!(flt(peak_error_during_impulse(&results, 0, 6, Estimator::Mean)), 9.0);
    assert_eq!(flt(peak_error_during_impulse(&results, 3, 0, Estimator::Mean)), 0.0);
}

#[test]
fn recovery_time_counts_steps_to_first_small_error() {
    let results: Vec<SimStep> = [0.01, 0.9, 0.8, 0.04, 0.7, 0.01]
        .iter()
        .map(|&e| record_with_errors(e, 1.0, f64::NAN))
        .collect();
    assert_eq!(recovery_time(&results, 1, bin(0.05), Estimator::Mean), 2);
    assert_eq!(recovery_time(&results, 0, bin(0.05), Estimator::Mean), 0);
    assert_eq!(recovery_time(&results, 4, bin(0.05), Estimator::Mean), 1);
    assert_eq!(recovery_time(&results, 1, bin(0.05), Estimator::FreqOnly), 5);
    assert_eq!(recovery_time(&results, 1, bin(0.05), Estimator::Dsfb), 5);
    assert_eq!(recovery_time(&results, 6, bin(0.05), Estimator::Mean), 0);
}
