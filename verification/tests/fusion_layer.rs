use dsfb::binary64::Binary64;
use dsfb::error::{ConfigurationError, Field, InputError};
use dsfb::fusion_layer::{
    adjust_sample, gather, mean_measurement, min, signum, Axis, AxisFusion, DsfbFusionLayer,
    ImuMeasurement, Vector3,
};
use dsfb::params::DsfbParams;

fn e(x: f64) -> Binary64 {
    Binary64::from_bits(x.to_bits())
}

fn d(x: Binary64) -> f64 {
    f64::from_bits(x.to_bits())
}

fn es(xs: &[f64]) -> Vec<Binary64> {
    xs.iter().map(|&x| e(x)).collect()
}

fn same_bits(a: f64, b: f64) -> bool {
    a.to_bits() == b.to_bits() || (a.is_nan() && b.is_nan())
}

struct ReferenceObserver {
    k: [f64; 3],
    rho: f64,
    sigma0: f64,
    state: [f64; 3],
    ema: Vec<f64>,
    weights: Vec<f64>,
}

impl ReferenceObserver {
    fn new(params: [f64; 5], channels: usize) -> Self {
        Self {
            k: [params[0], params[1], params[2]],
            rho: params[3],
            sigma0: params[4],
            state: [0.0; 3],
            ema: vec![0.0; channels],
            weights: vec![1.0; channels],
        }
    }

    fn step(&mut self, measurements: &[f64], dt: f64) -> f64 {
        let phi_pred = self.state[0] + self.state[1] * dt;
        let omega_pred = self.state[1] + self.state[2] * dt;
        let residuals: Vec<f64> = measurements.iter().map(|y| y - phi_pred).collect();
        let mut raw = vec![0.0; residuals.len()];
        for k in 0..residuals.len() {
            self.ema[k] = self.rho * self.ema[k] + (1.0 - self.rho) * residuals[k].abs();
            raw[k] = 1.0 / (self.sigma0 + self.ema[k]);
        }
        let mut total = 0.0;
        for r in &raw {
            total += r;
        }
        for k in 0..raw.len() {
            self.weights[k] = raw[k] / total;
        }
        let mut aggregate = 0.0;
        for k in 0..raw.len() {
            aggregate += self.weights[k] * residuals[k];
        }
        self.state = [
            phi_pred + self.k[0] * aggregate,
            omega_pred + self.k[1] * aggregate,
            self.state[2] + self.k[2] * aggregate,
        ];
        self.state[0]
    }
}

struct ReferenceAxis {
    observer: ReferenceObserver,
    prev: Vec<f64>,
    threshold: f64,
    gain: f64,
    initialized: bool,
    increments: Vec<f64>,
}

impl ReferenceAxis {
    fn new(params: [f64; 5], channels: usize, threshold: f64, gain: f64) -> Self {
        Self {
            observer: ReferenceObserver::new(params, channels),
            prev: vec![0.0; channels],
            threshold,
            gain,
            initialized: false,
            increments: vec![0.0; channels],
        }
    }

    fn step(&mut self, measurements: &[f64], dt_s: f64) -> f64 {
        if !self.initialized {
            let mean = measurements.iter().copied().sum::<f64>() / measurements.len() as f64;
            self.observer.state = [mean, 0.0, 0.0];
            self.prev.copy_from_slice(measurements);
            self.initialized = true;
        }
        let pred = self.observer.state[0] + self.observer.state[1] * dt_s;
        let mut adjusted = Vec::with_capacity(measurements.len());
        for (idx, sample) in measurements.iter().enumerate() {
            let sample = if sample.is_finite() { *sample } else { pred };
            let prev = if self.prev[idx].is_finite() { self.prev[idx] } else { sample };
            let inc = ((sample - prev) / dt_s).abs().min(1_000.0);
            self.increments[idx] = inc;
            let mut y = sample;
            if inc > self.threshold {
                let penalty = ((inc - self.threshold) * self.gain * dt_s).min(25.0);
                let delta = sample - pred;
                let sign = if delta.abs() < 1.0e-12 { 1.0 } else { delta.signum() };
                y += sign * penalty;
            }
            adjusted.push(y);
            self.prev[idx] = sample;
        }
        self.observer.step(&adjusted, dt_s)
    }
}

const ACCEL: [f64; 5] = [0.82, 0.14, 0.016, 0.97, 0.05];
const GYRO: [f64; 5] = [0.90, 0.11, 0.012, 0.97, 0.003];

fn params_of(p: [f64; 5]) -> DsfbParams {
    DsfbParams::new(e(p[0]), e(p[1]), e(p[2]), e(p[3]), e(p[4]))
}

fn unit(values: [f64; 6]) -> ImuMeasurement {
    ImuMeasurement {
        accel_b_mps2: Vector3 { x: e(values[0]), y: e(values[1]), z: e(values[2]) },
        gyro_b_rps: Vector3 { x: e(values[3]), y: e(values[4]), z: e(values[5]) },
    }
}

#[test]
fn signum_and_min_follow_their_conventions() {
    for x in [0.0_f64, -0.0, 2.5, -2.5, f64::INFINITY, f64::NEG_INFINITY, f64::NAN] {
        assert!(same_bits(d(signum(e(x))), x.signum()));
        for y in [0.0_f64, 1.0, -1.0, f64::NAN, 1e300] {
            assert!(same_bits(d(min(e(x), e(y))), x.min(y)) || (x == y));
        }
    }
}

#[test]
fn sample_adjustment_follows_its_formula() {
    let cases = [
        (1.0_f64, 1.0_f64, 1.0_f64),
        (5.0, 1.0, 1.5),
        (-5.0, 1.0, 1.5),
        (f64::NAN, 1.0, 2.0),
        (3.0, f64::INFINITY, 2.0),
        (2.0, -40.0, 2.0),
        (1e6, 0.0, 0.5),
        (1.0 + 4e-13, 0.0, 1.0),
    ];
    let (dt, threshold, gain) = (0.2_f64, 3.0_f64, 0.75_f64);
    for (raw, previous, pred) in cases {
        let got = adjust_sample(e(raw), e(previous), e(pred), e(dt), e(threshold), e(gain));
        let sample = if raw.is_finite() { raw } else { pred };
        let prev = if previous.is_finite() { previous } else { sample };
        let inc = ((sample - prev) / dt).abs().min(1_000.0);
        let mut y = sample;
        if inc > threshold {
            let penalty = ((inc - threshold) * gain * dt).min(25.0);
            let delta = sample - pred;
            let sign = if delta.abs() < 1.0e-12 { 1.0 } else { delta.signum() };
            y += sign * penalty;
        }
        assert!(same_bits(d(got.sample), sample));
        assert!(same_bits(d(got.increment), inc));
        assert!(same_bits(d(got.y), y));
    }
}

#[test]
fn axis_follows_the_reference_bit_for_bit() {
    let mut axis = AxisFusion::new(params_of(ACCEL), 3, e(32.0), e(0.75)).expect("valid");
    let mut reference = ReferenceAxis::new(ACCEL, 3, 32.0, 0.75);
    let steps = [
        [9.8_f64, 9.9, 9.7],
        [9.8, 9.9, 9.75],
        [9.9, 30.0, 9.7],
        [10.0, 55.0, 9.8],
        [10.1, 9.9, 9.9],
        [10.1, f64::NAN, 9.9],
        [10.2, 10.0, f64::INFINITY],
        [10.2, 10.1, 10.0],
    ];
    for ys in steps {
        let fused = d(axis.step(&es(&ys), e(0.2)).expect("one sample per channel"));
        let expected = reference.step(&ys, 0.2);
        assert_eq!(fused.to_bits(), expected.to_bits());
        for ch in 0..3 {
            assert_eq!(d(axis.weight(ch)).to_bits(), reference.observer.weights[ch].to_bits());
            assert_eq!(d(axis.increment(ch)).to_bits(), reference.increments[ch].to_bits());
        }
    }
}

#[test]
fn axis_refuses_wrong_number_of_samples() {
    let mut axis = AxisFusion::new(params_of(GYRO), 3, e(1.4), e(0.75)).expect("valid");
    assert_eq!(
        axis.step(&es(&[1.0, 2.0]), e(0.2)).err(),
        Some(InputError::LengthMismatch { expected: 3, got: 2 })
    );
    assert_eq!(d(axis.step(&es(&[1.0, 2.0, 3.0]), e(0.2)).expect("fits")), 2.0);
}

#[test]
fn axis_falls_back_to_mean_where_observer_cannot_go_on() {
    let mut axis = AxisFusion::new(params_of(ACCEL), 2, e(32.0), e(0.75)).expect("valid");
    let fused = d(axis.step(&es(&[1.0, 3.0]), e(f64::NAN)).expect("fits"));
    assert!(fused.is_nan());
    let fused = d(axis.step(&es(&[f64::MAX, f64::MAX]), e(0.2)).expect("fits"));
    assert!(!fused.is_finite() || fused == f64::MAX);
}

#[test]
fn layer_refuses_bad_configuration_and_too_many_units() {
    assert_eq!(
        DsfbFusionLayer::new(e(1.0), 3, e(32.0), e(1.4), e(0.75)).err(),
        Some(ConfigurationError::NotInUnitInterval {
            field: Field::Rho,
            index: None,
            bits: 1.0_f64.to_bits()
        })
    );
    assert_eq!(
        DsfbFusionLayer::new(e(0.97), 0, e(32.0), e(1.4), e(0.75)).err(),
        Some(ConfigurationError::NotPositive { field: Field::ChannelCount })
    );
    let mut layer = DsfbFusionLayer::new(e(0.97), 2, e(32.0), e(1.4), e(0.75)).expect("valid");
    let three = vec![unit([0.0; 6]); 3];
    assert_eq!(
        layer.fuse(&three, e(0.2)).err(),
        Some(InputError::LengthMismatch { expected: 2, got: 3 })
    );
}

#[test]
fn layer_follows_six_reference_axes() {
    let mut layer = DsfbFusionLayer::new(e(0.97), 3, e(32.0), e(1.4), e(0.75)).expect("valid");
    let mut reference: Vec<ReferenceAxis> = (0..6)
        .map(|i| {
            if i < 3 {
                ReferenceAxis::new(ACCEL, 3, 32.0, 0.75)
            } else {
                ReferenceAxis::new(GYRO, 3, 1.4, 0.75)
            }
        })
        .collect();
    let mut state: u64 = 0x5151_5151_ABAB_ABAB;
    let mut next = move || {
        state ^= state << 13;
        state ^= state >> 7;
        state ^= state << 17;
        (state % 20001) as f64 / 1000.0 - 10.0
    };
    for step in 0..40 {
        let mut units = Vec::new();
        for ch in 0..3 {
            let mut values = [0.0_f64; 6];
            for v in values.iter_mut() {
                *v = next() * if ch == 1 && step % 7 == 3 { 40.0 } else { 1.0 };
            }
            units.push(values);
        }
        let measurements: Vec<ImuMeasurement> = units.iter().map(|&u| unit(u)).collect();
        let out = layer.fuse(&measurements, e(0.2)).expect("fits");
        let mut fused = [0.0_f64; 6];
        for axis in 0..6 {
            let samples: Vec<f64> = units.iter().map(|u| u[axis]).collect();
            fused[axis] = reference[axis].step(&samples, 0.2);
        }
        let got = [
            out.fused_accel_b_mps2.x,
            out.fused_accel_b_mps2.y,
            out.fused_accel_b_mps2.z,
            out.fused_gyro_b_rps.x,
            out.fused_gyro_b_rps.y,
            out.fused_gyro_b_rps.z,
        ];
        for axis in 0..6 {
            assert_eq!(d(got[axis]).to_bits(), fused[axis].to_bits());
        }
        for ch in 0..3 {
            let mut w_sum = 0.0;
            let mut inc_sum = 0.0;
            for axis in &reference {
                w_sum += axis.observer.weights[ch];
                inc_sum += axis.increments[ch];
            }
            assert_eq!(d(out.trust_weights[ch]).to_bits(), (w_sum / 6.0).to_bits());
            assert_eq!(d(out.residual_increments[ch]).to_bits(), (inc_sum / 6.0).to_bits());
        }
    }
}

#[test]
fn missing_units_count_as_zero() {
    let measurements = vec![unit([1.0, 2.0, 3.0, 4.0, 5.0, 6.0])];
    let samples: Vec<f64> = gather(&measurements, Axis::GyroY, 3).iter().map(|&v| d(v)).collect();
    assert_eq!(samples, vec![5.0, 0.0, 0.0]);
}

#[test]
fn mean_measurement_is_componentwise() {
    let measurements =
        vec![unit([1.0, 2.0, 3.0, 4.0, 5.0, 6.0]), unit([3.0, 2.0, 1.0, 0.0, -5.0, 0.5])];
    let mean = mean_measurement(&measurements);
    assert_eq!(d(mean.accel_b_mps2.x), 2.0);
    assert_eq!(d(mean.accel_b_mps2.y), 2.0);
    assert_eq!(d(mean.accel_b_mps2.z), 2.0);
    assert_eq!(d(mean.gyro_b_rps.x), 2.0);
    assert_eq!(d(mean.gyro_b_rps.y), 0.0);
    assert_eq!(d(mean.gyro_b_rps.z), 3.25);
    assert!(d(mean_measurement(&vec![]).accel_b_mps2.x).is_nan());
}
