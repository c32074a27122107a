use dsfb::binary64::Binary64;
use dsfb::error::{ConfigurationError, Field, InputError};
use dsfb::observer::DsfbObserver;
use dsfb::params::DsfbParams;
use dsfb::state::DsfbState;

fn num(x: f64) -> Binary64 {
    Binary64::from_bits(x.to_bits())
}

fn val(x: Binary64) -> f64 {
    f64::from_bits(x.to_bits())
}

fn nums(xs: &[f64]) -> Vec<Binary64> {
    xs.iter().map(|&x| num(x)).collect()
}

fn params(k_phi: f64, k_omega: f64, k_alpha: f64, rho: f64, sigma0: f64) -> DsfbParams {
    DsfbParams::new(num(k_phi), num(k_omega), num(k_alpha), num(rho), num(sigma0))
}

#[test]
fn test_observer_creation() {
    let params = DsfbParams::default();
    let observer = DsfbObserver::new(params, 2).expect("valid configuration");
    assert_eq!(observer.channel_count(), 2);
    assert_eq!(val(observer.state().phi), 0.0);
}

#[test]
fn test_observer_step_no_residual() {
    let params = params(0.5, 0.1, 0.01, 0.9, 0.1);
    let mut observer = DsfbObserver::new(params, 2).expect("valid configuration");
    observer.init(DsfbState::new(num(1.0), num(0.1), num(0.0)));

    let dt = 0.1;
    let measurements = nums(&[1.01, 1.01]);
    let state = observer.step(&measurements, num(dt)).expect("finite measurements");

    assert!(val(state.phi) > 1.0);
}

#[test]
fn test_observer_trust_weights_sum() {
    let params = DsfbParams::default();
    let mut observer = DsfbObserver::new(params, 3).expect("valid configuration");

    let measurements = nums(&[0.5, 1.5, 2.5]);
    observer.step(&measurements, num(0.1)).expect("finite measurements");

    let sum: f64 = (0..3).map(|i| val(observer.trust_weight(i))).sum();
    assert!((sum - 1.0).abs() < 1e-10);
}

#[test]
fn default_params_have_documented_values() {
    let p = DsfbParams::default_params();
    assert_eq!(val(p.k_phi), 0.5);
    assert_eq!(val(p.k_omega), 0.1);
    assert_eq!(val(p.k_alpha), 0.01);
    assert_eq!(val(p.rho), 0.95);
    assert_eq!(val(p.sigma0), 0.1);
}

#[test]
fn zero_state_is_default_state() {
    let z = DsfbState::zero();
    let d = DsfbState::default();
    for (a, b) in [(z.phi, d.phi), (z.omega, d.omega), (z.alpha, d.alpha)] {
        assert_eq!(a.to_bits(), 0);
        assert_eq!(b.to_bits(), 0);
    }
}

#[test]
fn step_matches_formulas_bit_for_bit() {
    let (k_phi, k_omega, k_alpha, rho, sigma0) = (0.5_f64, 0.1, 0.01, 0.9, 0.1);
    let mut observer =
        DsfbObserver::new(params(k_phi, k_omega, k_alpha, rho, sigma0), 3).expect("valid");
    let (mut phi, mut omega, mut alpha) = (1.0_f64, 0.1, -0.02);
    observer.init(DsfbState::new(num(phi), num(omega), num(alpha)));
    let mut ema = [0.0_f64; 3];
    let dt = 0.1_f64;

    for ys in [[1.01_f64, 0.97, 1.3], [1.1, 1.0, 2.4], [0.9, 1.2, 3.3]] {
        let state = observer.step(&nums(&ys), num(dt)).expect("finite measurements");

        let phi_pred = phi + omega * dt;
        let omega_pred = omega + alpha * dt;
        let residuals: Vec<f64> = ys.iter().map(|y| y - phi_pred).collect();
        let mut raw = [0.0_f64; 3];
        for k in 0..3 {
            ema[k] = rho * ema[k] + (1.0 - rho) * residuals[k].abs();
            raw[k] = 1.0 / (sigma0 + ema[k]);
        }
        let total = 0.0 + raw[0] + raw[1] + raw[2];
        let weights: Vec<f64> = raw.iter().map(|w| w / total).collect();
        let mut aggregate = 0.0_f64;
        for k in 0..3 {
            aggregate += weights[k] * residuals[k];
        }
        phi = phi_pred + k_phi * aggregate;
        omega = omega_pred + k_omega * aggregate;
        alpha = alpha + k_alpha * aggregate;

        assert_eq!(val(state.phi).to_bits(), phi.to_bits());
        assert_eq!(val(state.omega).to_bits(), omega.to_bits());
        assert_eq!(val(state.alpha).to_bits(), alpha.to_bits());
        for k in 0..3 {
            assert_eq!(val(observer.trust_weight(k)).to_bits(), weights[k].to_bits());
            assert_eq!(val(observer.ema_residual(k)).to_bits(), ema[k].to_bits());
        }
        assert_eq!(val(observer.state().phi).to_bits(), phi.to_bits());
    }
}

#[test]
fn step_distrusts_the_channel_that_disagrees() {
    let mut observer = DsfbObserver::new(DsfbParams::default(), 2).expect("valid");
    for _ in 0..50 {
        observer.step(&nums(&[0.0, 5.0]), num(0.01)).expect("finite measurements");
    }
    let stats = observer.trust_stats();
    assert_eq!(stats.len(), 2);
    assert!(val(stats[0].weight) > val(stats[1].weight));
    assert!(val(stats[0].residual_ema) < val(stats[1].residual_ema));
}

#[test]
fn step_rejects_wrong_length_without_change() {
    let mut observer = DsfbObserver::new(DsfbParams::default(), 2).expect("valid");
    observer.step(&nums(&[0.5, 0.25]), num(0.1)).expect("finite measurements");
    let before = snapshot(&observer);

    let error = observer.step(&nums(&[1.0]), num(0.1)).expect_err("must reject");
    assert_eq!(error, InputError::LengthMismatch { expected: 2, got: 1 });
    assert_eq!(snapshot(&observer), before);
}

#[test]
fn step_rejects_non_finite_measurement_without_change() {
    let mut observer = DsfbObserver::new(DsfbParams::default(), 3).expect("valid");
    observer.step(&nums(&[0.5, 0.25, 1.0]), num(0.1)).expect("finite measurements");
    let before = snapshot(&observer);

    let error =
        observer.step(&nums(&[1.0, f64::INFINITY, f64::NAN]), num(0.1)).expect_err("must reject");
    assert_eq!(error, InputError::NotFinite { index: 1, bits: f64::INFINITY.to_bits() });
    assert_eq!(snapshot(&observer), before);
}

#[test]
fn step_rejects_a_time_step_that_is_not_finite_without_change() {
    let mut observer = DsfbObserver::new(DsfbParams::default(), 2).expect("valid");
    observer.step(&nums(&[0.5, 0.25]), num(0.1)).expect("finite measurements");
    let before = snapshot(&observer);

    for dt in [f64::NAN, f64::INFINITY, f64::NEG_INFINITY] {
        let error = observer.step(&nums(&[0.5, 0.25]), num(dt)).expect_err("must reject");
        assert_eq!(error, InputError::TimeStepNotFinite);
        assert_eq!(snapshot(&observer), before);
    }
    let error = observer.step(&nums(&[0.5]), num(f64::NAN)).expect_err("must reject");
    assert_eq!(error, InputError::LengthMismatch { expected: 2, got: 1 });
    let error = observer.step(&nums(&[f64::NAN, 0.5]), num(f64::NAN)).expect_err("must reject");
    assert_eq!(error, InputError::NotFinite { index: 0, bits: f64::NAN.to_bits() });
    assert_eq!(snapshot(&observer), before);
}

#[test]
fn step_rejects_a_residual_that_is_not_finite_without_change() {
    let mut observer = DsfbObserver::new(DsfbParams::default(), 2).expect("valid");
    observer.step(&nums(&[0.5, 0.25]), num(0.1)).expect("finite measurements");
    observer.init(DsfbState::new(num(f64::MAX), num(f64::MAX), num(0.0)));
    let before = snapshot(&observer);

    // The prediction overflows over this time step, so every residual is
    // infinite though the measurements are finite.
    let error = observer.step(&nums(&[0.5, 0.25]), num(2.0)).expect_err("must reject");
    assert_eq!(
        error,
        InputError::ResidualNotFinite { index: 0, bits: f64::NEG_INFINITY.to_bits() }
    );
    assert_eq!(snapshot(&observer), before);

    // A measurement at the far end of the range overflows alone.
    observer.init(DsfbState::new(num(f64::MAX), num(0.0), num(0.0)));
    let before = snapshot(&observer);
    let error = observer.step(&nums(&[1.0, -f64::MAX]), num(0.1)).expect_err("must reject");
    assert_eq!(
        error,
        InputError::ResidualNotFinite { index: 1, bits: f64::NEG_INFINITY.to_bits() }
    );
    assert_eq!(snapshot(&observer), before);
}

fn snapshot(observer: &DsfbObserver) -> Vec<u64> {
    let state = observer.state();
    let mut out = vec![state.phi.to_bits(), state.omega.to_bits(), state.alpha.to_bits()];
    for stats in observer.trust_stats() {
        out.push(stats.residual_ema.to_bits());
        out.push(stats.weight.to_bits());
    }
    out
}

#[test]
fn construction_rejects_each_bad_parameter() {
    let field_error = |p: DsfbParams, channels: usize| {
        DsfbObserver::new(p, channels).expect_err("must reject")
    };
    assert_eq!(
        field_error(DsfbParams::default(), 0),
        ConfigurationError::NotPositive { field: Field::ChannelCount }
    );
    assert_eq!(
        field_error(params(0.5, 0.1, 0.01, 1.0, 0.1), 2),
        ConfigurationError::NotInUnitInterval {
            field: Field::Rho,
            index: None,
            bits: 1.0_f64.to_bits()
        }
    );
    assert_eq!(
        field_error(params(0.5, 0.1, 0.01, 0.9, 0.0), 2),
        ConfigurationError::NotAboveZero { field: Field::Sigma0, bits: 0.0_f64.to_bits() }
    );
    assert_eq!(
        field_error(params(f64::NAN, 0.1, 0.01, 0.9, 0.1), 2),
        ConfigurationError::NotFinite { field: Field::KPhi, bits: f64::NAN.to_bits() }
    );
    assert_eq!(
        field_error(params(0.5, f64::INFINITY, 0.01, 0.9, 0.1), 2),
        ConfigurationError::NotFinite { field: Field::KOmega, bits: f64::INFINITY.to_bits() }
    );
    assert_eq!(
        field_error(params(0.5, 0.1, f64::NEG_INFINITY, 0.9, 0.1), 2),
        ConfigurationError::NotFinite {
            field: Field::KAlpha,
            bits: f64::NEG_INFINITY.to_bits()
        }
    );
}

#[test]
fn fresh_observer_has_unit_weights_and_zero_envelopes() {
    let observer = DsfbObserver::new(DsfbParams::default(), 4).expect("valid");
    for k in 0..4 {
        assert_eq!(val(observer.trust_weight(k)), 1.0);
        assert_eq!(val(observer.ema_residual(k)), 0.0);
    }
}

#[test]
fn equal_measurements_give_equal_weights() {
    let mut observer = DsfbObserver::new(DsfbParams::default(), 5).expect("valid");
    observer.step(&nums(&[0.7; 5]), num(0.01)).expect("finite measurements");
    let first = val(observer.trust_weight(0));
    assert!((first - 0.2).abs() < 1e-15);
    for k in 1..5 {
        assert_eq!(val(observer.trust_weight(k)).to_bits(), first.to_bits());
    }
}

#[test]
fn parameters_states_and_statistics_compare_as_numbers_do() {
    let p = DsfbParams::default();
    assert_eq!(p, DsfbParams::default());
    assert_ne!(p, params(0.5, 0.1, 0.01, 0.9, 0.2));
    assert_eq!(DsfbState::new(num(0.0), num(1.0), num(2.0)), DsfbState::new(num(-0.0), num(1.0), num(2.0)));
    assert_ne!(
        DsfbState::new(num(f64::NAN), num(1.0), num(2.0)),
        DsfbState::new(num(f64::NAN), num(1.0), num(2.0))
    );
    assert_eq!(num(1.5), num(1.5));
    assert_ne!(num(1.5), num(-1.5));
    assert_eq!(num(0.0), num(-0.0));
    assert_ne!(num(f64::NAN), num(f64::NAN));

    let observer = DsfbObserver::new(p, 2).expect("valid");
    assert_eq!(observer.trust_stats()[0], observer.trust_stats()[1]);
    assert_eq!(observer.state(), DsfbState::zero());
}
