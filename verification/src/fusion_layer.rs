//! Fusion of redundant inertial units: each axis of acceleration and of
//! rotation is tracked by a kinematic observer of its own, fed with samples
//! that are pushed away from the prediction where they slew too fast.
use vstd::prelude::*;
use crate::binary64::Binary64;
use crate::binary64::number;
use crate::binary64::ONE_BITS;
use crate::binary64::ZERO_BITS;
use crate::error::ConfigurationError;
use crate::error::InputError;
use crate::hret::copy_of;
use crate::hret::zero_vector;
use crate::hret::zeros;
use crate::monte_carlo::smaller;
use crate::observer::kinematic_rejection;
use crate::observer::DsfbModel;
use crate::observer::DsfbObserver;
use crate::params::DsfbParams;
use crate::sim::mean_of;
use crate::state::DsfbState;
use crate::trust::running_sum;
use crate::trust::sum;

verus! {

/// Pattern of `1000.0`, the largest slew that is recorded.
pub const SLEW_CAP_BITS: u64 = 0x408F_4000_0000_0000;

/// Pattern of `25.0`, the largest penalty.
pub const PENALTY_CAP_BITS: u64 = 0x4039_0000_0000_0000;

/// Pattern of `1e-12`: a sample this close to the prediction is pushed
/// upwards.
pub const TIE_LIMIT_BITS: u64 = 0x3D71_9799_812D_EA11;

/// Pattern of `-1.0`.
pub const MINUS_ONE_BITS: u64 = 0xBFF0_0000_0000_0000;

/// Pattern of `6.0`, the number of axes.
pub const SIX_BITS: u64 = 0x4018_0000_0000_0000;

/// Patterns of the gains and the softness of the acceleration observers:
/// `0.82`, `0.14`, `0.016` and `0.05`.
pub const ACCEL_K_PHI_BITS: u64 = 0x3FEA_3D70_A3D7_0A3D;

pub const ACCEL_K_OMEGA_BITS: u64 = 0x3FC1_EB85_1EB8_51EC;

pub const ACCEL_K_ALPHA_BITS: u64 = 0x3F90_624D_D2F1_A9FC;

pub const ACCEL_SIGMA0_BITS: u64 = 0x3FA9_9999_9999_999A;

/// Patterns of the gains and the softness of the rotation observers:
/// `0.90`, `0.11`, `0.012` and `0.003`.
pub const GYRO_K_PHI_BITS: u64 = 0x3FEC_CCCC_CCCC_CCCD;

pub const GYRO_K_OMEGA_BITS: u64 = 0x3FBC_28F5_C28F_5C29;

pub const GYRO_K_ALPHA_BITS: u64 = 0x3F88_9374_BC6A_7EFA;

pub const GYRO_SIGMA0_BITS: u64 = 0x3F68_9374_BC6A_7EFA;

/// The sign of a number as a number: 1 or -1 by the sign bit, and the NaN
/// itself for a NaN.
pub open spec fn sign_of(x: Binary64) -> Binary64 {
    if x.is_nan_spec() {
        x
    } else if x.sign_is_set() {
        number(MINUS_ONE_BITS)
    } else {
        number(ONE_BITS)
    }
}

/// The sign of a number as a number.
pub fn signum(x: Binary64) -> (r: Binary64)
    ensures
        r == sign_of(x),
{
    if x.is_nan() {
        x
    } else if x.is_sign_negative() {
        Binary64::from_bits(MINUS_ONE_BITS)
    } else {
        Binary64::one()
    }
}

/// The smaller of two numbers.
pub fn min(a: Binary64, b: Binary64) -> (r: Binary64)
    ensures
        r == smaller(a, b),
{
    if a.is_nan() || b.lt(a) {
        b
    } else {
        a
    }
}

/// What becomes of one sample.
#[derive(Clone, Copy, Debug)]
pub struct Adjusted {
    /// The sample, or the prediction in place of a sample that is not
    /// finite.
    pub sample: Binary64,
    /// The slew against the previous sample, at most 1000.
    pub increment: Binary64,
    /// The sample as it is handed to the observer.
    pub y: Binary64,
}

/// What becomes of one sample: a sample that is not finite gives way to
/// the prediction; its slew is the change against the previous sample per
/// time, at most 1000; where the slew exceeds the threshold, the sample is
/// pushed away from the prediction by the excess times gain and time step,
/// at most by 25.
pub open spec fn adjusted(
    raw: Binary64,
    previous: Binary64,
    pred: Binary64,
    dt: Binary64,
    slew_threshold: Binary64,
    penalty_gain: Binary64,
) -> Adjusted {
    let sample = if raw.is_finite_spec() {
        raw
    } else {
        pred
    };
    let prev = if previous.is_finite_spec() {
        previous
    } else {
        sample
    };
    let increment = smaller(sample.minus(prev).over(dt).magnitude(), number(SLEW_CAP_BITS));
    let y = if increment.exceeds(slew_threshold) {
        let penalty = smaller(
            increment.minus(slew_threshold).times(penalty_gain).times(dt),
            number(PENALTY_CAP_BITS),
        );
        let delta = sample.minus(pred);
        let sign = if delta.magnitude().below(number(TIE_LIMIT_BITS)) {
            number(ONE_BITS)
        } else {
            sign_of(delta)
        };
        sample.plus(sign.times(penalty))
    } else {
        sample
    };
    Adjusted { sample, increment, y }
}

/// Adjusts one sample.
pub fn adjust_sample(
    raw: Binary64,
    previous: Binary64,
    pred: Binary64,
    dt: Binary64,
    slew_threshold: Binary64,
    penalty_gain: Binary64,
) -> (r: Adjusted)
    ensures
        r == adjusted(raw, previous, pred, dt, slew_threshold, penalty_gain),
{
    let sample = if raw.is_finite() {
        raw
    } else {
        pred
    };
    let prev = if previous.is_finite() {
        previous
    } else {
        sample
    };
    let increment = min(
        sample.sub_rounded(prev).div_rounded(dt).abs(),
        Binary64::from_bits(SLEW_CAP_BITS),
    );
    let mut y = sample;
    if increment.gt(slew_threshold) {
        let penalty = min(
            increment.sub_rounded(slew_threshold).mul_rounded(penalty_gain).mul_rounded(dt),
            Binary64::from_bits(PENALTY_CAP_BITS),
        );
        let delta = sample.sub_rounded(pred);
        let sign = if delta.abs().lt(Binary64::from_bits(TIE_LIMIT_BITS)) {
            Binary64::one()
        } else {
            signum(delta)
        };
        y = y.add_rounded(sign.mul_rounded(penalty));
    }
    Adjusted { sample, increment, y }
}

/// The fusion of one axis as a mathematical value.
pub struct AxisModel {
    pub observer: DsfbModel,
    pub prev_samples: Seq<Binary64>,
    pub slew_threshold: Binary64,
    pub penalty_gain: Binary64,
    pub initialized: bool,
    pub last_increments: Seq<Binary64>,
}

impl AxisModel {
    /// The axis as the measurements find it: before the first step the
    /// observer is set on their mean and they are taken as the previous
    /// samples.
    pub open spec fn started(self, measurements: Seq<Binary64>) -> AxisModel {
        if self.initialized {
            self
        } else {
            AxisModel {
                observer: DsfbModel {
                    state: DsfbState {
                        phi: mean_of(measurements),
                        omega: number(ZERO_BITS),
                        alpha: number(ZERO_BITS),
                    },
                    ..self.observer
                },
                prev_samples: measurements,
                initialized: true,
                ..self
            }
        }
    }

    /// The position predicted over `dt`.
    pub open spec fn prediction(self, dt: Binary64) -> Binary64 {
        self.observer.state.phi.plus(self.observer.state.omega.times(dt))
    }

    /// What becomes of each sample.
    pub open spec fn adjustments(self, measurements: Seq<Binary64>, dt: Binary64) -> Seq<Adjusted> {
        let begun = self.started(measurements);
        Seq::new(
            measurements.len(),
            |i: int|
                adjusted(
                    measurements[i],
                    begun.prev_samples[i],
                    begun.prediction(dt),
                    dt,
                    self.slew_threshold,
                    self.penalty_gain,
                ),
        )
    }

    /// The samples as they are handed to the observer.
    pub open spec fn handed(self, measurements: Seq<Binary64>, dt: Binary64) -> Seq<Binary64> {
        Seq::new(measurements.len(), |i: int| self.adjustments(measurements, dt)[i].y)
    }

    /// Whether the observer's estimate is kept: the samples were taken in
    /// and the new position is finite.
    pub open spec fn keeps_estimate(self, measurements: Seq<Binary64>, dt: Binary64) -> bool {
        let begun = self.started(measurements);
        let handed = self.handed(measurements, dt);
        begun.observer.rejection(handed, dt) is None && begun.observer.stepped(
            handed,
            dt,
        ).state.phi.is_finite_spec()
    }

    /// The observer after the step. Where its estimate is not kept, it is
    /// set anew on the mean of the samples handed to it.
    pub open spec fn next_observer(self, measurements: Seq<Binary64>, dt: Binary64) -> DsfbModel {
        let begun = self.started(measurements);
        let handed = self.handed(measurements, dt);
        let taken = if begun.observer.rejection(handed, dt) is None {
            begun.observer.stepped(handed, dt)
        } else {
            begun.observer
        };
        if self.keeps_estimate(measurements, dt) {
            taken
        } else {
            DsfbModel {
                state: DsfbState {
                    phi: mean_of(handed),
                    omega: number(ZERO_BITS),
                    alpha: number(ZERO_BITS),
                },
                ..taken
            }
        }
    }

    /// The axis after the step.
    pub open spec fn stepped(self, measurements: Seq<Binary64>, dt: Binary64) -> AxisModel {
        AxisModel {
            observer: self.next_observer(measurements, dt),
            prev_samples: Seq::new(
                measurements.len(),
                |i: int| self.adjustments(measurements, dt)[i].sample,
            ),
            slew_threshold: self.slew_threshold,
            penalty_gain: self.penalty_gain,
            initialized: true,
            last_increments: Seq::new(
                measurements.len(),
                |i: int| self.adjustments(measurements, dt)[i].increment,
            ),
        }
    }
}

/// The fusion of one axis over several channels.
#[derive(Debug)]
pub struct AxisFusion {
    observer: DsfbObserver,
    prev_samples: Vec<Binary64>,
    slew_threshold: Binary64,
    penalty_gain: Binary64,
    initialized: bool,
    last_increments: Vec<Binary64>,
}

impl View for AxisFusion {
    type V = AxisModel;

    closed spec fn view(&self) -> AxisModel {
        AxisModel {
            observer: self.observer@,
            prev_samples: self.prev_samples@,
            slew_threshold: self.slew_threshold,
            penalty_gain: self.penalty_gain,
            initialized: self.initialized,
            last_increments: self.last_increments@,
        }
    }
}

impl AxisFusion {
    /// One previous sample and one slew per channel of the observer.
    pub closed spec fn wf(&self) -> bool {
        &&& self.observer.wf()
        &&& self.prev_samples@.len() == self.observer@.channels()
        &&& self.last_increments@.len() == self.observer@.channels()
    }

    /// The number of channels.
    pub open spec fn channels(&self) -> nat {
        self@.observer.channels()
    }

    /// An axis that has seen no sample.
    pub fn new(
        params: DsfbParams,
        channels: usize,
        slew_threshold: Binary64,
        penalty_gain: Binary64,
    ) -> (r: Result<AxisFusion, ConfigurationError>)
        ensures
            match r {
                Ok(axis) => {
                    &&& kinematic_rejection(params, channels) is None
                    &&& axis.wf()
                    &&& axis.channels() == channels
                    &&& axis@.observer.params == params
                    &&& axis@.observer.state == DsfbState::origin()
                    &&& axis@.observer.envelopes == zeros(channels as nat)
                    &&& axis@.prev_samples == zeros(channels as nat)
                    &&& axis@.last_increments == zeros(channels as nat)
                    &&& axis@.slew_threshold == slew_threshold
                    &&& axis@.penalty_gain == penalty_gain
                    &&& !axis@.initialized
                },
                Err(e) => kinematic_rejection(params, channels) == Some(e),
            },
    {
        let observer = match DsfbObserver::new(params, channels) {
            Err(e) => return Err(e),
            Ok(observer) => observer,
        };
        Ok(
            AxisFusion {
                observer,
                prev_samples: zero_vector(channels),
                slew_threshold,
                penalty_gain,
                initialized: false,
                last_increments: zero_vector(channels),
            },
        )
    }

    /// Takes the samples of one time step in and returns the fused value:
    /// the observer's new position, or the mean of the adjusted samples
    /// where that position is not finite or the observer refuses the
    /// samples. One sample per channel is asked for; any other number is
    /// refused and the axis stays as it was.
    pub fn step(&mut self, measurements: &Vec<Binary64>, dt_s: Binary64) -> (r: Result<
        Binary64,
        InputError,
    >)
        requires
            old(self).wf(),
        ensures
            final(self).wf(),
            final(self).channels() == old(self).channels(),
            match r {
                Ok(fused) => {
                    &&& measurements.len() == old(self).channels()
                    &&& final(self)@ == old(self)@.stepped(measurements@, dt_s)
                    &&& fused == final(self)@.observer.state.phi
                },
                Err(e) => {
                    &&& measurements.len() != old(self).channels()
                    &&& e == (InputError::LengthMismatch {
                        expected: old(self).channels() as usize,
                        got: measurements.len(),
                    })
                    &&& *final(self) == *old(self)
                },
            },
    {
        let channels = self.observer.channel_count();
        if measurements.len() != channels {
            return Err(InputError::LengthMismatch { expected: channels, got: measurements.len() });
        }
        if !self.initialized {
            let mean = sum(measurements).div_rounded(Binary64::from_count(measurements.len()));
            self.observer.init(DsfbState::new(mean, Binary64::zero(), Binary64::zero()));
            self.prev_samples = copy_of(measurements);
            self.initialized = true;
        }
        let ghost begun = self@;
        assert(begun == old(self)@.started(measurements@));
        let state = self.observer.state();
        let pred = state.phi.add_rounded(state.omega.mul_rounded(dt_s));
        let mut adjusted_samples: Vec<Binary64> = Vec::new();
        let mut idx: usize = 0;
        while idx < measurements.len()
            invariant
                idx <= measurements.len(),
                measurements.len() == channels,
                self.observer.wf(),
                self.observer@ == begun.observer,
                self.observer@.channels() == channels,
                self.initialized,
                self.slew_threshold == begun.slew_threshold,
                self.penalty_gain == begun.penalty_gain,
                begun == old(self)@.started(measurements@),
                begun.prev_samples.len() == channels,
                pred == begun.prediction(dt_s),
                self.prev_samples@.len() == channels,
                self.last_increments@.len() == channels,
                adjusted_samples@.len() == idx,
                forall|i: int|
                    0 <= i < idx ==> #[trigger] adjusted_samples@[i] == old(self)@.adjustments(
                        measurements@,
                        dt_s,
                    )[i].y,
                forall|i: int|
                    0 <= i < idx ==> #[trigger] self.prev_samples@[i] == old(self)@.adjustments(
                        measurements@,
                        dt_s,
                    )[i].sample,
                forall|i: int|
                    0 <= i < idx ==> #[trigger] self.last_increments@[i] == old(self)@.adjustments(
                        measurements@,
                        dt_s,
                    )[i].increment,
                old(self)@.slew_threshold == begun.slew_threshold,
                old(self)@.penalty_gain == begun.penalty_gain,
                forall|i: int|
                    idx <= i < channels ==> #[trigger] self.prev_samples@[i]
                        == begun.prev_samples[i],
            decreases measurements.len() - idx,
        {
            let a = adjust_sample(
                measurements[idx],
                self.prev_samples[idx],
                pred,
                dt_s,
                self.slew_threshold,
                self.penalty_gain,
            );
            self.last_increments.set(idx, a.increment);
            adjusted_samples.push(a.y);
            self.prev_samples.set(idx, a.sample);
            idx += 1;
        }
        proof {
            assert(adjusted_samples@ =~= old(self)@.handed(measurements@, dt_s));
            assert(self.prev_samples@ =~= old(self)@.stepped(measurements@, dt_s).prev_samples);
            assert(self.last_increments@ =~= old(self)@.stepped(
                measurements@,
                dt_s,
            ).last_increments);
        }
        let fused = match self.observer.step(&adjusted_samples, dt_s) {
            Ok(state) => state.phi,
            Err(_) => {
                let mean = sum(&adjusted_samples).div_rounded(
                    Binary64::from_count(adjusted_samples.len()),
                );
                self.observer.init(DsfbState::new(mean, Binary64::zero(), Binary64::zero()));
                return Ok(mean);
            },
        };
        if fused.is_finite() {
            Ok(fused)
        } else {
            let mean = sum(&adjusted_samples).div_rounded(
                Binary64::from_count(adjusted_samples.len()),
            );
            self.observer.init(DsfbState::new(mean, Binary64::zero(), Binary64::zero()));
            Ok(mean)
        }
    }

    /// The weight that `channel` had in the last step.
    pub fn weight(&self, channel: usize) -> (r: Binary64)
        requires
            self.wf(),
            channel < self.channels(),
        ensures
            r == self@.observer.weights[channel as int],
    {
        self.observer.trust_weight(channel)
    }

    /// The slew of `channel` in the last step.
    pub fn increment(&self, channel: usize) -> (r: Binary64)
        requires
            self.wf(),
            channel < self.channels(),
        ensures
            r == self@.last_increments[channel as int],
    {
        self.last_increments[channel]
    }
}

/// Three components along the body axes.
#[derive(Clone, Copy, Debug)]
pub struct Vector3 {
    pub x: Binary64,
    pub y: Binary64,
    pub z: Binary64,
}

/// What one inertial unit measures: specific force and rate of rotation.
#[derive(Clone, Copy, Debug)]
pub struct ImuMeasurement {
    pub accel_b_mps2: Vector3,
    pub gyro_b_rps: Vector3,
}

/// Which of the six axes is meant.
#[derive(Clone, Copy, Debug, PartialEq, Eq, Structural)]
pub enum Axis {
    AccelX,
    AccelY,
    AccelZ,
    GyroX,
    GyroY,
    GyroZ,
}

impl Axis {
    /// What the unit measures along this axis.
    pub open spec fn of(self, m: ImuMeasurement) -> Binary64 {
        match self {
            Axis::AccelX => m.accel_b_mps2.x,
            Axis::AccelY => m.accel_b_mps2.y,
            Axis::AccelZ => m.accel_b_mps2.z,
            Axis::GyroX => m.gyro_b_rps.x,
            Axis::GyroY => m.gyro_b_rps.y,
            Axis::GyroZ => m.gyro_b_rps.z,
        }
    }

    /// Reads this axis off a measurement.
    pub fn read(self, m: &ImuMeasurement) -> (r: Binary64)
        ensures
            r == self.of(*m),
    {
        match self {
            Axis::AccelX => m.accel_b_mps2.x,
            Axis::AccelY => m.accel_b_mps2.y,
            Axis::AccelZ => m.accel_b_mps2.z,
            Axis::GyroX => m.gyro_b_rps.x,
            Axis::GyroY => m.gyro_b_rps.y,
            Axis::GyroZ => m.gyro_b_rps.z,
        }
    }
}

/// The samples of one axis over `channels` channels: what each unit
/// measures along the axis, and `+0.0` for channels without a unit.
pub open spec fn axis_samples(measurements: Seq<ImuMeasurement>, axis: Axis, channels: nat) -> Seq<
    Binary64,
> {
    Seq::new(
        channels,
        |i: int|
            if i < measurements.len() {
                axis.of(measurements[i])
            } else {
                number(ZERO_BITS)
            },
    )
}

/// Gathers the samples of one axis.
pub fn gather(measurements: &Vec<ImuMeasurement>, axis: Axis, channels: usize) -> (r: Vec<
    Binary64,
>)
    ensures
        r@ == axis_samples(measurements@, axis, channels as nat),
{
    let mut out: Vec<Binary64> = Vec::new();
    let mut i: usize = 0;
    while i < channels
        invariant
            i <= channels,
            out@.len() == i,
            forall|j: int|
                0 <= j < i ==> out@[j] == (if j < measurements.len() {
                    axis.of(measurements@[j])
                } else {
                    number(ZERO_BITS)
                }),
        decreases channels - i,
    {
        if i < measurements.len() {
            out.push(axis.read(&measurements[i]));
        } else {
            out.push(Binary64::zero());
        }
        i += 1;
    }
    assert(out@ =~= axis_samples(measurements@, axis, channels as nat));
    out
}

/// The mean over the six axes: the values summed in the order of the axes,
/// from `+0.0`, over 6.
pub open spec fn mean_of_six(
    a: Binary64,
    b: Binary64,
    c: Binary64,
    d: Binary64,
    e: Binary64,
    f: Binary64,
) -> Binary64 {
    number(ZERO_BITS).plus(a).plus(b).plus(c).plus(d).plus(e).plus(f).over(number(SIX_BITS))
}

/// The acceleration observers' parameters under forgetting factor `rho`.
pub open spec fn accel_params(rho: Binary64) -> DsfbParams {
    DsfbParams {
        k_phi: number(ACCEL_K_PHI_BITS),
        k_omega: number(ACCEL_K_OMEGA_BITS),
        k_alpha: number(ACCEL_K_ALPHA_BITS),
        rho,
        sigma0: number(ACCEL_SIGMA0_BITS),
    }
}

/// What the fusion layer hands back.
#[derive(Debug)]
pub struct DsfbFusionOutput {
    pub fused_accel_b_mps2: Vector3,
    pub fused_gyro_b_rps: Vector3,
    /// Per channel, the mean of its weights over the six axes.
    pub trust_weights: Vec<Binary64>,
    /// Per channel, the mean of its slews over the six axes.
    pub residual_increments: Vec<Binary64>,
}

/// The fusion of several inertial units, axis by axis.
#[derive(Debug)]
pub struct DsfbFusionLayer {
    accel_x: AxisFusion,
    accel_y: AxisFusion,
    accel_z: AxisFusion,
    gyro_x: AxisFusion,
    gyro_y: AxisFusion,
    gyro_z: AxisFusion,
    channels: usize,
}

impl DsfbFusionLayer {
    /// The fusion of the given axis.
    pub closed spec fn axis(&self, axis: Axis) -> AxisModel {
        match axis {
            Axis::AccelX => self.accel_x@,
            Axis::AccelY => self.accel_y@,
            Axis::AccelZ => self.accel_z@,
            Axis::GyroX => self.gyro_x@,
            Axis::GyroY => self.gyro_y@,
            Axis::GyroZ => self.gyro_z@,
        }
    }

    /// The number of channels.
    pub closed spec fn channel_count(&self) -> nat {
        self.channels as nat
    }

    /// Six well-formed axes over the same channels.
    pub closed spec fn wf(&self) -> bool {
        &&& self.accel_x.wf() && self.accel_x.channels() == self.channels
        &&& self.accel_y.wf() && self.accel_y.channels() == self.channels
        &&& self.accel_z.wf() && self.accel_z.channels() == self.channels
        &&& self.gyro_x.wf() && self.gyro_x.channels() == self.channels
        &&& self.gyro_y.wf() && self.gyro_y.channels() == self.channels
        &&& self.gyro_z.wf() && self.gyro_z.channels() == self.channels
    }

    /// A fusion layer over `imu_count` units. The acceleration axes share
    /// one set of parameters and one slew threshold, the rotation axes
    /// another.
    pub fn new(
        rho: Binary64,
        imu_count: usize,
        slew_threshold_accel: Binary64,
        slew_threshold_gyro: Binary64,
        slew_penalty_gain: Binary64,
    ) -> (r: Result<DsfbFusionLayer, ConfigurationError>)
        ensures
            match r {
                Ok(layer) => {
                    &&& kinematic_rejection(accel_params(rho), imu_count) is None
                    &&& layer.wf()
                    &&& layer.channel_count() == imu_count
                    &&& forall|axis: Axis| !(#[trigger] layer.axis(axis)).initialized
                },
                Err(e) => kinematic_rejection(accel_params(rho), imu_count) == Some(e),
            },
    {
        let accel = DsfbParams::new(
            Binary64::from_bits(ACCEL_K_PHI_BITS),
            Binary64::from_bits(ACCEL_K_OMEGA_BITS),
            Binary64::from_bits(ACCEL_K_ALPHA_BITS),
            rho,
            Binary64::from_bits(ACCEL_SIGMA0_BITS),
        );
        let gyro = DsfbParams::new(
            Binary64::from_bits(GYRO_K_PHI_BITS),
            Binary64::from_bits(GYRO_K_OMEGA_BITS),
            Binary64::from_bits(GYRO_K_ALPHA_BITS),
            rho,
            Binary64::from_bits(GYRO_SIGMA0_BITS),
        );
        let accel_x = match AxisFusion::new(accel, imu_count, slew_threshold_accel, slew_penalty_gain) {
            Err(e) => return Err(e),
            Ok(axis) => axis,
        };
        let accel_y = match AxisFusion::new(accel, imu_count, slew_threshold_accel, slew_penalty_gain) {
            Err(e) => return Err(e),
            Ok(axis) => axis,
        };
        let accel_z = match AxisFusion::new(accel, imu_count, slew_threshold_accel, slew_penalty_gain) {
            Err(e) => return Err(e),
            Ok(axis) => axis,
        };
        proof {
            assert(GYRO_SIGMA0_BITS < crate::binary64::INFINITY_BITS);
            assert(kinematic_rejection(gyro, imu_count) is None);
        }
        let gyro_x = match AxisFusion::new(gyro, imu_count, slew_threshold_gyro, slew_penalty_gain) {
            Err(e) => return Err(e),
            Ok(axis) => axis,
        };
        let gyro_y = match AxisFusion::new(gyro, imu_count, slew_threshold_gyro, slew_penalty_gain) {
            Err(e) => return Err(e),
            Ok(axis) => axis,
        };
        let gyro_z = match AxisFusion::new(gyro, imu_count, slew_threshold_gyro, slew_penalty_gain) {
            Err(e) => return Err(e),
            Ok(axis) => axis,
        };
        Ok(DsfbFusionLayer { accel_x, accel_y, accel_z, gyro_x, gyro_y, gyro_z, channels: imu_count })
    }

    /// Fuses the measurements of one time step. More measurements than
    /// channels are refused and the layer stays as it was; channels without
    /// a measurement count as measuring zero.
    pub fn fuse(&mut self, measurements: &Vec<ImuMeasurement>, dt_s: Binary64) -> (r: Result<
        DsfbFusionOutput,
        InputError,
    >)
        requires
            old(self).wf(),
        ensures
            final(self).wf(),
            final(self).channel_count() == old(self).channel_count(),
            match r {
                Ok(out) => {
                    &&& measurements.len() <= old(self).channel_count()
                    &&& forall|axis: Axis| #[trigger]
                        final(self).axis(axis) == old(self).axis(axis).stepped(
                            axis_samples(measurements@, axis, old(self).channel_count()),
                            dt_s,
                        )
                    &&& out.fused_accel_b_mps2.x == final(self).axis(Axis::AccelX).observer.state.phi
                    &&& out.fused_accel_b_mps2.y == final(self).axis(Axis::AccelY).observer.state.phi
                    &&& out.fused_accel_b_mps2.z == final(self).axis(Axis::AccelZ).observer.state.phi
                    &&& out.fused_gyro_b_rps.x == final(self).axis(Axis::GyroX).observer.state.phi
                    &&& out.fused_gyro_b_rps.y == final(self).axis(Axis::GyroY).observer.state.phi
                    &&& out.fused_gyro_b_rps.z == final(self).axis(Axis::GyroZ).observer.state.phi
                    &&& out.trust_weights@.len() == old(self).channel_count()
                    &&& out.residual_increments@.len() == old(self).channel_count()
                    &&& forall|ch: int|
                        0 <= ch < old(self).channel_count() ==> #[trigger] out.trust_weights@[ch]
                            == mean_of_six(
                            final(self).axis(Axis::AccelX).observer.weights[ch],
                            final(self).axis(Axis::AccelY).observer.weights[ch],
                            final(self).axis(Axis::AccelZ).observer.weights[ch],
                            final(self).axis(Axis::GyroX).observer.weights[ch],
                            final(self).axis(Axis::GyroY).observer.weights[ch],
                            final(self).axis(Axis::GyroZ).observer.weights[ch],
                        )
                    &&& forall|ch: int|
                        0 <= ch < old(self).channel_count()
                            ==> #[trigger] out.residual_increments@[ch] == mean_of_six(
                            final(self).axis(Axis::AccelX).last_increments[ch],
                            final(self).axis(Axis::AccelY).last_increments[ch],
                            final(self).axis(Axis::AccelZ).last_increments[ch],
                            final(self).axis(Axis::GyroX).last_increments[ch],
                            final(self).axis(Axis::GyroY).last_increments[ch],
                            final(self).axis(Axis::GyroZ).last_increments[ch],
                        )
                },
                Err(e) => {
                    &&& measurements.len() > old(self).channel_count()
                    &&& e == (InputError::LengthMismatch {
                        expected: old(self).channel_count() as usize,
                        got: measurements.len(),
                    })
                    &&& *final(self) == *old(self)
                },
            },
    {
        if measurements.len() > self.channels {
            return Err(
                InputError::LengthMismatch { expected: self.channels, got: measurements.len() },
            );
        }
        let channels = self.channels;
        let samples = gather(measurements, Axis::AccelX, channels);
        let ax = match self.accel_x.step(&samples, dt_s) {
            Ok(v) => v,
            Err(_) => Binary64::zero(),
        };
        let samples = gather(measurements, Axis::AccelY, channels);
        let ay = match self.accel_y.step(&samples, dt_s) {
            Ok(v) => v,
            Err(_) => Binary64::zero(),
        };
        let samples = gather(measurements, Axis::AccelZ, channels);
        let az = match self.accel_z.step(&samples, dt_s) {
            Ok(v) => v,
            Err(_) => Binary64::zero(),
        };
        let samples = gather(measurements, Axis::GyroX, channels);
        let gx = match self.gyro_x.step(&samples, dt_s) {
            Ok(v) => v,
            Err(_) => Binary64::zero(),
        };
        let samples = gather(measurements, Axis::GyroY, channels);
        let gy = match self.gyro_y.step(&samples, dt_s) {
            Ok(v) => v,
            Err(_) => Binary64::zero(),
        };
        let samples = gather(measurements, Axis::GyroZ, channels);
        let gz = match self.gyro_z.step(&samples, dt_s) {
            Ok(v) => v,
            Err(_) => Binary64::zero(),
        };

        let six = Binary64::from_bits(SIX_BITS);
        let mut trust_weights: Vec<Binary64> = Vec::new();
        let mut residual_increments: Vec<Binary64> = Vec::new();
        let mut ch: usize = 0;
        while ch < channels
            invariant
                ch <= channels,
                channels == self.channels,
                self.wf(),
                six == number(SIX_BITS),
                trust_weights@.len() == ch,
                residual_increments@.len() == ch,
                forall|c: int|
                    0 <= c < ch ==> #[trigger] trust_weights@[c] == mean_of_six(
                        self.accel_x@.observer.weights[c],
                        self.accel_y@.observer.weights[c],
                        self.accel_z@.observer.weights[c],
                        self.gyro_x@.observer.weights[c],
                        self.gyro_y@.observer.weights[c],
                        self.gyro_z@.observer.weights[c],
                    ),
                forall|c: int|
                    0 <= c < ch ==> #[trigger] residual_increments@[c] == mean_of_six(
                        self.accel_x@.last_increments[c],
                        self.accel_y@.last_increments[c],
                        self.accel_z@.last_increments[c],
                        self.gyro_x@.last_increments[c],
                        self.gyro_y@.last_increments[c],
                        self.gyro_z@.last_increments[c],
                    ),
            decreases channels - ch,
        {
            let mut w_sum = Binary64::zero();
            let mut inc_sum = Binary64::zero();
            w_sum = w_sum.add_rounded(self.accel_x.weight(ch));
            inc_sum = inc_sum.add_rounded(self.accel_x.increment(ch));
            w_sum = w_sum.add_rounded(self.accel_y.weight(ch));
            inc_sum = inc_sum.add_rounded(self.accel_y.increment(ch));
            w_sum = w_sum.add_rounded(self.accel_z.weight(ch));
            inc_sum = inc_sum.add_rounded(self.accel_z.increment(ch));
            w_sum = w_sum.add_rounded(self.gyro_x.weight(ch));
            inc_sum = inc_sum.add_rounded(self.gyro_x.increment(ch));
            w_sum = w_sum.add_rounded(self.gyro_y.weight(ch));
            inc_sum = inc_sum.add_rounded(self.gyro_y.increment(ch));
            w_sum = w_sum.add_rounded(self.gyro_z.weight(ch));
            inc_sum = inc_sum.add_rounded(self.gyro_z.increment(ch));
            trust_weights.push(w_sum.div_rounded(six));
            residual_increments.push(inc_sum.div_rounded(six));
            ch += 1;
        }
        Ok(
            DsfbFusionOutput {
                fused_accel_b_mps2: Vector3 { x: ax, y: ay, z: az },
                fused_gyro_b_rps: Vector3 { x: gx, y: gy, z: gz },
                trust_weights,
                residual_increments,
            },
        )
    }
}

/// The values along one axis.
pub open spec fn along(measurements: Seq<ImuMeasurement>, axis: Axis) -> Seq<Binary64> {
    Seq::new(measurements.len(), |i: int| axis.of(measurements[i]))
}

/// The mean along one axis.
fn mean_along(measurements: &Vec<ImuMeasurement>, axis: Axis) -> (r: Binary64)
    ensures
        r == mean_of(along(measurements@, axis)),
{
    let ghost all = along(measurements@, axis);
    let mut acc = Binary64::zero();
    let mut i: usize = 0;
    while i < measurements.len()
        invariant
            i <= measurements.len(),
            all == along(measurements@, axis),
            acc == running_sum(all.take(i as int)),
        decreases measurements.len() - i,
    {
        proof {
            assert(all.take(i + 1).drop_last() =~= all.take(i as int));
        }
        acc = acc.add_rounded(axis.read(&measurements[i]));
        i += 1;
    }
    proof {
        assert(all.take(measurements.len() as int) =~= all);
    }
    acc.div_rounded(Binary64::from_count(measurements.len()))
}

/// The mean of the measurements, component by component.
pub fn mean_measurement(measurements: &Vec<ImuMeasurement>) -> (r: ImuMeasurement)
    ensures
        forall|axis: Axis| #[trigger] axis.of(r) == mean_of(along(measurements@, axis)),
{
    let r = ImuMeasurement {
        accel_b_mps2: Vector3 {
            x: mean_along(measurements, Axis::AccelX),
            y: mean_along(measurements, Axis::AccelY),
            z: mean_along(measurements, Axis::AccelZ),
        },
        gyro_b_rps: Vector3 {
            x: mean_along(measurements, Axis::GyroX),
            y: mean_along(measurements, Axis::GyroY),
            z: mean_along(measurements, Axis::GyroZ),
        },
    };
    assert forall|axis: Axis| #[trigger] axis.of(r) == mean_of(along(measurements@, axis)) by {
        match axis {
            Axis::AccelX => {},
            Axis::AccelY => {},
            Axis::AccelZ => {},
            Axis::GyroX => {},
            Axis::GyroY => {},
            Axis::GyroZ => {},
        }
    }
    r
}

} // verus!
