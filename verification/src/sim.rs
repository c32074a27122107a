//! Drift-impulse simulation: a truth that drifts, two noisy channels of
//! which the second drifts away and suffers an impulse, and three
//! estimators side by side. The noise is handed in by the caller, so that a
//! run is a function of its inputs.
use vstd::prelude::*;
use crate::binary64::Binary64;
use crate::binary64::count_number;
use crate::binary64::number;
use crate::binary64::ZERO_BITS;
use crate::bench::larger;
use crate::error::ConfigurationError;
use crate::error::InputError;
use crate::observer::kinematic_rejection;
use crate::observer::DsfbModel;
use crate::observer::DsfbObserver;
use crate::params::DsfbParams;
use crate::state::DsfbState;
use crate::trust::running_sum;
use crate::trust::sum;

verus! {

/// Pattern of `2.0`.
pub const TWO_BITS: u64 = 0x4000_0000_0000_0000;

/// Pattern of `0.5`: initial drift of the truth and position gain of the
/// baseline observer.
pub const HALF_BITS: u64 = 0x3FE0_0000_0000_0000;

/// Pattern of `0.1`: drift gain of the baseline observer.
pub const TENTH_BITS: u64 = 0x3FB9_9999_9999_999A;

/// Pattern of `0.01`, the default time step.
pub const DEFAULT_DT_BITS: u64 = 0x3F84_7AE1_47AE_147B;

/// Pattern of `0.05`, the default measurement noise.
pub const DEFAULT_SIGMA_NOISE_BITS: u64 = 0x3FA9_9999_9999_999A;

/// The true position, drift and slew.
#[derive(Clone, Copy, Debug)]
pub struct TrueState {
    pub phi: Binary64,
    pub omega: Binary64,
    pub alpha: Binary64,
}

impl TrueState {
    pub fn new(phi: Binary64, omega: Binary64, alpha: Binary64) -> (r: TrueState)
        ensures
            r == (TrueState { phi, omega, alpha }),
    {
        TrueState { phi, omega, alpha }
    }

    /// The truth one time step on, its slew moved by `slew_noise`.
    pub open spec fn moved(self, dt: Binary64, slew_noise: Binary64) -> TrueState {
        TrueState {
            phi: self.phi.plus(self.omega.times(dt)),
            omega: self.omega.plus(self.alpha.times(dt)),
            alpha: self.alpha.plus(slew_noise),
        }
    }

    /// Moves the truth one time step on.
    pub fn propagate(&mut self, dt: Binary64, slew_noise: Binary64)
        ensures
            *final(self) == old(self).moved(dt, slew_noise),
    {
        self.phi = self.phi.add_rounded(self.omega.mul_rounded(dt));
        self.omega = self.omega.add_rounded(self.alpha.mul_rounded(dt));
        self.alpha = self.alpha.add_rounded(slew_noise);
    }
}

/// Mean of the numbers, summed from left to right.
pub open spec fn mean_of(xs: Seq<Binary64>) -> Binary64 {
    running_sum(xs).over(count_number(xs.len()))
}

/// Baseline observer of position and drift that averages its channels and
/// keeps no slew state.
#[derive(Clone, Copy, Debug)]
pub struct FreqOnlyObserver {
    pub phi: Binary64,
    pub omega: Binary64,
    pub k_phi: Binary64,
    pub k_omega: Binary64,
}

impl FreqOnlyObserver {
    /// An observer at rest in the origin.
    pub fn new(k_phi: Binary64, k_omega: Binary64) -> (r: FreqOnlyObserver)
        ensures
            r == (FreqOnlyObserver {
                phi: number(ZERO_BITS),
                omega: number(ZERO_BITS),
                k_phi,
                k_omega,
            }),
    {
        FreqOnlyObserver { phi: Binary64::zero(), omega: Binary64::zero(), k_phi, k_omega }
    }

    /// The observer after a step: the predicted position corrected by the
    /// residual of the mean measurement, the drift corrected likewise.
    pub open spec fn stepped(self, measurements: Seq<Binary64>, dt: Binary64) -> FreqOnlyObserver {
        let phi_pred = self.phi.plus(self.omega.times(dt));
        let residual = mean_of(measurements).minus(phi_pred);
        FreqOnlyObserver {
            phi: phi_pred.plus(self.k_phi.times(residual)),
            omega: self.omega.plus(self.k_omega.times(residual)),
            ..self
        }
    }

    /// Takes the measurements of one time step in and returns the new
    /// position estimate.
    pub fn step(&mut self, measurements: &Vec<Binary64>, dt: Binary64) -> (r: Binary64)
        ensures
            *final(self) == old(self).stepped(measurements@, dt),
            r == final(self).phi,
    {
        let phi_pred = self.phi.add_rounded(self.omega.mul_rounded(dt));
        let mean_meas = sum(measurements).div_rounded(Binary64::from_count(measurements.len()));
        let residual = mean_meas.sub_rounded(phi_pred);
        self.phi = phi_pred.add_rounded(self.k_phi.mul_rounded(residual));
        self.omega = self.omega.add_rounded(self.k_omega.mul_rounded(residual));
        self.phi
    }
}

/// What a simulation run is made of.
#[derive(Clone, Copy, Debug)]
pub struct SimConfig {
    /// Time step.
    pub dt: Binary64,
    /// Number of steps.
    pub steps: usize,
    /// Standard deviation of the measurement noise.
    pub sigma_noise: Binary64,
    /// Standard deviation of the slew noise.
    pub sigma_alpha: Binary64,
    /// Drift rate of the second channel.
    pub drift_beta: Binary64,
    /// First step of the impulse.
    pub impulse_start: usize,
    /// Length of the impulse in steps.
    pub impulse_duration: usize,
    /// Height of the impulse.
    pub impulse_amplitude: Binary64,
    /// Seed of the noise.
    pub seed: u64,
}

impl SimConfig {
    /// The configuration of `default`: 1000 steps of 0.01, noise 0.05 and
    /// 0.01, drift 0.1, an impulse of height 1 over steps 300 to 399,
    /// seed 42.
    pub open spec fn defaults() -> SimConfig {
        SimConfig {
            dt: number(DEFAULT_DT_BITS),
            steps: 1000,
            sigma_noise: number(DEFAULT_SIGMA_NOISE_BITS),
            sigma_alpha: number(DEFAULT_DT_BITS),
            drift_beta: number(TENTH_BITS),
            impulse_start: 300,
            impulse_duration: 100,
            impulse_amplitude: number(crate::binary64::ONE_BITS),
            seed: 42,
        }
    }

    /// Whether the impulse acts at `step`.
    pub open spec fn impulse_at(self, step: usize) -> bool {
        self.impulse_start <= step < self.impulse_start + self.impulse_duration
    }

    /// Whether the impulse acts at `step`.
    pub fn in_impulse(&self, step: usize) -> (r: bool)
        ensures
            r == self.impulse_at(step),
    {
        step >= self.impulse_start && step - self.impulse_start < self.impulse_duration
    }
}

impl Default for SimConfig {
    fn default() -> (r: SimConfig)
        ensures
            r == SimConfig::defaults(),
    {
        SimConfig {
            dt: Binary64::from_bits(DEFAULT_DT_BITS),
            steps: 1000,
            sigma_noise: Binary64::from_bits(DEFAULT_SIGMA_NOISE_BITS),
            sigma_alpha: Binary64::from_bits(DEFAULT_DT_BITS),
            drift_beta: Binary64::from_bits(TENTH_BITS),
            impulse_start: 300,
            impulse_duration: 100,
            impulse_amplitude: Binary64::one(),
            seed: 42,
        }
    }
}

/// The three random draws of one step.
#[derive(Clone, Copy, Debug)]
pub struct Noise {
    /// Noise on the first channel.
    pub first: Binary64,
    /// Noise on the second channel.
    pub second: Binary64,
    /// Increment of the true slew.
    pub slew: Binary64,
}

/// What one step of the simulation records.
#[derive(Clone, Copy, Debug)]
pub struct SimStep {
    pub t: Binary64,
    pub phi_true: Binary64,
    pub y1: Binary64,
    pub y2: Binary64,
    pub phi_mean: Binary64,
    pub phi_freqonly: Binary64,
    pub phi_dsfb: Binary64,
    pub err_mean: Binary64,
    pub err_freqonly: Binary64,
    pub err_dsfb: Binary64,
    pub w2: Binary64,
    pub s2: Binary64,
}

/// The time of `step`.
pub open spec fn time_of(config: SimConfig, step: usize) -> Binary64 {
    count_number(step as nat).times(config.dt)
}

/// The measurement of the first channel: the truth plus noise.
pub open spec fn first_measurement(phi_true: Binary64, noise: Noise) -> Binary64 {
    phi_true.plus(noise.first)
}

/// The measurement of the second channel: the truth plus a drift that grows
/// with time, plus noise, plus the impulse while it acts.
pub open spec fn second_measurement(
    config: SimConfig,
    phi_true: Binary64,
    step: usize,
    noise: Noise,
) -> Binary64 {
    let drifting = phi_true.plus(config.drift_beta.times(time_of(config, step))).plus(
        noise.second,
    );
    if config.impulse_at(step) {
        drifting.plus(config.impulse_amplitude)
    } else {
        drifting
    }
}

/// The simulation as a mathematical value.
pub struct SimModel {
    pub config: SimConfig,
    pub truth: TrueState,
    pub dsfb: DsfbModel,
    pub freqonly: FreqOnlyObserver,
    /// Number of steps taken.
    pub step: usize,
}

impl SimModel {
    /// The two measurements of the next step.
    pub open spec fn measurements(self, noise: Noise) -> Seq<Binary64> {
        seq![
            first_measurement(self.truth.phi, noise),
            second_measurement(self.config, self.truth.phi, self.step, noise),
        ]
    }

    /// The rejection of the step under `noise`, if any: that of the
    /// observer on the measurements of the step over the time step of the
    /// run.
    pub open spec fn rejection(self, noise: Noise) -> Option<InputError> {
        self.dsfb.rejection(self.measurements(noise), self.config.dt)
    }

    /// The simulation after the next step.
    pub open spec fn advanced(self, noise: Noise) -> SimModel {
        SimModel {
            config: self.config,
            truth: self.truth.moved(self.config.dt, noise.slew),
            dsfb: self.dsfb.stepped(self.measurements(noise), self.config.dt),
            freqonly: self.freqonly.stepped(self.measurements(noise), self.config.dt),
            step: (self.step + 1) as usize,
        }
    }

    /// What the next step records.
    pub open spec fn record(self, noise: Noise) -> SimStep {
        let ys = self.measurements(noise);
        let next = self.advanced(noise);
        let phi_mean = ys[0].plus(ys[1]).over(number(TWO_BITS));
        SimStep {
            t: time_of(self.config, self.step),
            phi_true: self.truth.phi,
            y1: ys[0],
            y2: ys[1],
            phi_mean,
            phi_freqonly: next.freqonly.phi,
            phi_dsfb: next.dsfb.state.phi,
            err_mean: phi_mean.minus(self.truth.phi).magnitude(),
            err_freqonly: next.freqonly.phi.minus(self.truth.phi).magnitude(),
            err_dsfb: next.dsfb.state.phi.minus(self.truth.phi).magnitude(),
            w2: next.dsfb.weights[1],
            s2: next.dsfb.envelopes[1],
        }
    }
}

/// The simulation before its first step: the truth in the origin with a
/// drift of 0.5, the kinematic observer started on the truth with zero
/// envelopes and unit weights, the baseline observer with gains 0.5 and 0.1.
pub open spec fn initial_simulation(config: SimConfig, dsfb_params: DsfbParams) -> SimModel {
    SimModel {
        config,
        truth: TrueState {
            phi: number(ZERO_BITS),
            omega: number(HALF_BITS),
            alpha: number(ZERO_BITS),
        },
        dsfb: DsfbModel {
            params: dsfb_params,
            state: DsfbState {
                phi: number(ZERO_BITS),
                omega: number(HALF_BITS),
                alpha: number(ZERO_BITS),
            },
            envelopes: crate::hret::zeros(2),
            weights: Seq::new(2, |k: int| number(crate::binary64::ONE_BITS)),
        },
        freqonly: FreqOnlyObserver {
            phi: number(ZERO_BITS),
            omega: number(ZERO_BITS),
            k_phi: number(HALF_BITS),
            k_omega: number(TENTH_BITS),
        },
        step: 0,
    }
}

/// A drift-impulse simulation under way.
#[derive(Debug)]
pub struct Simulation {
    config: SimConfig,
    truth: TrueState,
    dsfb: DsfbObserver,
    freqonly: FreqOnlyObserver,
    step: usize,
}

impl View for Simulation {
    type V = SimModel;

    closed spec fn view(&self) -> SimModel {
        SimModel {
            config: self.config,
            truth: self.truth,
            dsfb: self.dsfb@,
            freqonly: self.freqonly,
            step: self.step,
        }
    }
}

impl Simulation {
    /// The observer inside is well-formed and watches two channels.
    pub closed spec fn wf(&self) -> bool {
        self.dsfb.wf() && self.dsfb@.channels() == 2
    }

    /// A simulation before its first step, or the reason why the observer's
    /// parameters are refused.
    pub fn new(config: SimConfig, dsfb_params: DsfbParams) -> (r: Result<
        Simulation,
        ConfigurationError,
    >)
        ensures
            match r {
                Ok(sim) => {
                    &&& kinematic_rejection(dsfb_params, 2) is None
                    &&& sim.wf()
                    &&& sim@ == initial_simulation(config, dsfb_params)
                },
                Err(e) => kinematic_rejection(dsfb_params, 2) == Some(e),
            },
    {
        let half = Binary64::from_bits(HALF_BITS);
        let truth = TrueState::new(Binary64::zero(), half, Binary64::zero());
        let mut dsfb = match DsfbObserver::new(dsfb_params, 2) {
            Err(e) => return Err(e),
            Ok(observer) => observer,
        };
        dsfb.init(DsfbState::new(Binary64::zero(), half, Binary64::zero()));
        let freqonly = FreqOnlyObserver::new(half, Binary64::from_bits(TENTH_BITS));
        Ok(Simulation { config, truth, dsfb, freqonly, step: 0 })
    }

    /// The number of steps taken.
    pub fn steps_taken(&self) -> (r: usize)
        ensures
            r == self@.step,
    {
        self.step
    }

    /// Takes one step with the given noise and returns its record. Where
    /// the observer refuses the step (a measurement, the time step or a
    /// residual is infinite or NaN) the simulation stays exactly as it was.
    pub fn advance(&mut self, noise: Noise) -> (r: Result<SimStep, InputError>)
        requires
            old(self).wf(),
            old(self)@.step < usize::MAX,
        ensures
            final(self).wf(),
            match r {
                Ok(record) => {
                    &&& old(self)@.rejection(noise) is None
                    &&& final(self)@ == old(self)@.advanced(noise)
                    &&& record == old(self)@.record(noise)
                },
                Err(e) => {
                    &&& old(self)@.rejection(noise) == Some(e)
                    &&& *final(self) == *old(self)
                },
            },
    {
        let t = Binary64::from_count(self.step).mul_rounded(self.config.dt);
        let phi_true = self.truth.phi;
        let y1 = phi_true.add_rounded(noise.first);
        let mut y2 = phi_true.add_rounded(self.config.drift_beta.mul_rounded(t)).add_rounded(
            noise.second,
        );
        if self.config.in_impulse(self.step) {
            y2 = y2.add_rounded(self.config.impulse_amplitude);
        }
        let mut ys: Vec<Binary64> = Vec::new();
        ys.push(y1);
        ys.push(y2);
        assert(ys@ =~= old(self)@.measurements(noise));

        let dsfb_state = match self.dsfb.step(&ys, self.config.dt) {
            Err(e) => return Err(e),
            Ok(state) => state,
        };
        let phi_dsfb = dsfb_state.phi;
        let phi_mean = y1.add_rounded(y2).div_rounded(Binary64::from_bits(TWO_BITS));
        let phi_freqonly = self.freqonly.step(&ys, self.config.dt);

        let w2 = self.dsfb.trust_weight(1);
        let s2 = self.dsfb.ema_residual(1);

        let record = SimStep {
            t,
            phi_true,
            y1,
            y2,
            phi_mean,
            phi_freqonly,
            phi_dsfb,
            err_mean: phi_mean.sub_rounded(phi_true).abs(),
            err_freqonly: phi_freqonly.sub_rounded(phi_true).abs(),
            err_dsfb: phi_dsfb.sub_rounded(phi_true).abs(),
            w2,
            s2,
        };
        self.truth.propagate(self.config.dt, noise.slew);
        self.step = self.step + 1;
        Ok(record)
    }
}

/// Why a run came to nothing.
#[derive(Clone, Copy, Debug, PartialEq, Eq, Structural)]
pub enum SimulationError {
    /// The observer's parameters are refused.
    Configuration(ConfigurationError),
    /// There is not one noise entry per step.
    NoiseLength { expected: usize, got: usize },
    /// The observer refused the given step: a measurement, the time step or
    /// a residual was infinite or NaN.
    Measurement { step: usize, error: InputError },
}

/// The simulation after the first `n` noise entries were taken in.
pub open spec fn state_after(start: SimModel, noise: Seq<Noise>, n: nat) -> SimModel
    decreases n,
{
    if n == 0 {
        start
    } else {
        state_after(start, noise, (n - 1) as nat).advanced(noise[n - 1])
    }
}

/// Runs the drift-impulse simulation over `config.steps` steps, with the
/// noise of each step taken from `noise`, and returns the record of every
/// step. The run stops at the first step whose measurements are refused.
pub fn run_simulation(config: SimConfig, dsfb_params: DsfbParams, noise: &Vec<Noise>) -> (r: Result<
    Vec<SimStep>,
    SimulationError,
>)
    ensures
        match r {
            Ok(records) => {
                &&& kinematic_rejection(dsfb_params, 2) is None
                &&& noise.len() == config.steps
                &&& records@.len() == config.steps
                &&& forall|i: int|
                    0 <= i < config.steps ==> #[trigger] records@[i] == state_after(
                        initial_simulation(config, dsfb_params),
                        noise@,
                        i as nat,
                    ).record(noise@[i])
                &&& forall|i: int|
                    0 <= i < config.steps ==>
                        (#[trigger] state_after(
                            initial_simulation(config, dsfb_params),
                            noise@,
                            i as nat,
                        )).rejection(noise@[i]) is None
            },
            Err(SimulationError::Configuration(e)) => kinematic_rejection(dsfb_params, 2) == Some(
                e,
            ),
            Err(SimulationError::NoiseLength { expected, got }) => {
                &&& kinematic_rejection(dsfb_params, 2) is None
                &&& expected == config.steps
                &&& got == noise.len()
                &&& expected != got
            },
            Err(SimulationError::Measurement { step, error }) => {
                &&& kinematic_rejection(dsfb_params, 2) is None
                &&& noise.len() == config.steps
                &&& step < config.steps
                &&& state_after(
                    initial_simulation(config, dsfb_params),
                    noise@,
                    step as nat,
                ).rejection(noise@[step as int]) == Some(error)
                &&& forall|i: int|
                    0 <= i < step ==>
                        (#[trigger] state_after(
                            initial_simulation(config, dsfb_params),
                            noise@,
                            i as nat,
                        )).rejection(noise@[i]) is None
            },
        },
{
    let mut sim = match Simulation::new(config, dsfb_params) {
        Err(e) => return Err(SimulationError::Configuration(e)),
        Ok(sim) => sim,
    };
    if noise.len() != config.steps {
        return Err(SimulationError::NoiseLength { expected: config.steps, got: noise.len() });
    }
    let ghost start = initial_simulation(config, dsfb_params);
    let mut results: Vec<SimStep> = Vec::new();
    let mut step: usize = 0;
    while step < config.steps
        invariant
            step <= config.steps,
            noise.len() == config.steps,
            kinematic_rejection(dsfb_params, 2) is None,
            start == initial_simulation(config, dsfb_params),
            sim.wf(),
            sim@ == state_after(start, noise@, step as nat),
            sim@.step == step,
            results@.len() == step,
            forall|i: int|
                0 <= i < step ==> #[trigger] results@[i] == state_after(start, noise@, i as nat)
                    .record(noise@[i]),
            forall|i: int|
                0 <= i < step ==>
                    (#[trigger] state_after(
                        start,
                        noise@,
                        i as nat,
                    )).rejection(noise@[i]) is None,
        decreases config.steps - step,
    {
        match sim.advance(noise[step]) {
            Err(error) => return Err(SimulationError::Measurement { step, error }),
            Ok(record) => results.push(record),
        }
        step += 1;
    }
    Ok(results)
}

/// The squares of the numbers.
pub open spec fn squares(xs: Seq<Binary64>) -> Seq<Binary64> {
    Seq::new(xs.len(), |i: int| xs[i].times(xs[i]))
}

/// Root of the mean of the squares.
pub open spec fn root_mean_square(xs: Seq<Binary64>) -> Binary64 {
    running_sum(squares(xs)).over(count_number(xs.len())).root()
}

/// Root-mean-square of the errors. Of no errors it is a NaN.
pub fn rms_error(errors: &Vec<Binary64>) -> (r: Binary64)
    ensures
        r == root_mean_square(errors@),
{
    let ghost all = squares(errors@);
    let mut sum_sq = Binary64::zero();
    let mut i: usize = 0;
    while i < errors.len()
        invariant
            i <= errors.len(),
            all == squares(errors@),
            sum_sq == running_sum(all.take(i as int)),
        decreases errors.len() - i,
    {
        proof {
            assert(all.take(i + 1).drop_last() =~= all.take(i as int));
        }
        sum_sq = sum_sq.add_rounded(errors[i].mul_rounded(errors[i]));
        i += 1;
    }
    proof {
        assert(all.take(errors.len() as int) =~= all);
    }
    sum_sq.div_rounded(Binary64::from_count(errors.len())).sqrt_rounded()
}

/// Which of the three estimators an error is read from.
#[derive(Clone, Copy, Debug, PartialEq, Eq, Structural)]
pub enum Estimator {
    Mean,
    FreqOnly,
    Dsfb,
}

impl Estimator {
    /// The error that `record` holds for this estimator.
    pub open spec fn error_in(self, record: SimStep) -> Binary64 {
        match self {
            Estimator::Mean => record.err_mean,
            Estimator::FreqOnly => record.err_freqonly,
            Estimator::Dsfb => record.err_dsfb,
        }
    }

    /// Reads this estimator's error from `record`.
    pub fn error_of(self, record: &SimStep) -> (r: Binary64)
        ensures
            r == self.error_in(*record),
    {
        match self {
            Estimator::Mean => record.err_mean,
            Estimator::FreqOnly => record.err_freqonly,
            Estimator::Dsfb => record.err_dsfb,
        }
    }
}

/// The largest of `0.0` and the numbers, NaNs passed over.
pub open spec fn peak(xs: Seq<Binary64>) -> Binary64
    decreases xs.len(),
{
    if xs.len() == 0 {
        number(ZERO_BITS)
    } else {
        larger(peak(xs.drop_last()), xs.last())
    }
}

/// The errors of `which` over the records from `from` on, `count` of them.
pub open spec fn errors_between(results: Seq<SimStep>, from: int, count: int, which: Estimator)
    -> Seq<Binary64> {
    Seq::new(count as nat, |i: int| which.error_in(results[from + i]))
}

/// Peak error of an estimator while the impulse acts.
pub fn peak_error_during_impulse(
    results: &Vec<SimStep>,
    impulse_start: usize,
    impulse_duration: usize,
    which: Estimator,
) -> (r: Binary64)
    requires
        impulse_start + impulse_duration <= results.len(),
    ensures
        r == peak(errors_between(results@, impulse_start as int, impulse_duration as int, which)),
{
    let ghost all = errors_between(
        results@,
        impulse_start as int,
        impulse_duration as int,
        which,
    );
    let mut best = Binary64::zero();
    let mut i: usize = 0;
    while i < impulse_duration
        invariant
            i <= impulse_duration,
            impulse_start + impulse_duration <= results.len(),
            all == errors_between(results@, impulse_start as int, impulse_duration as int, which),
            best == peak(all.take(i as int)),
        decreases impulse_duration - i,
    {
        proof {
            assert(all.take(i + 1).drop_last() =~= all.take(i as int));
        }
        let e = which.error_of(&results[impulse_start + i]);
        if best.is_nan() || e.gt(best) {
            best = e;
        }
        i += 1;
    }
    proof {
        assert(all.take(impulse_duration as int) =~= all);
    }
    best
}

/// Steps from `impulse_end` on until the error of an estimator first falls
/// below `threshold`; the number of remaining records where it never does.
pub fn recovery_time(
    results: &Vec<SimStep>,
    impulse_end: usize,
    threshold: Binary64,
    which: Estimator,
) -> (r: usize)
    requires
        impulse_end <= results.len(),
    ensures
        r <= results.len() - impulse_end,
        forall|i: int|
            0 <= i < r ==> !which.error_in(#[trigger] results@[impulse_end + i]).below(threshold),
        r < results.len() - impulse_end ==> which.error_in(results@[impulse_end + r]).below(
            threshold,
        ),
{
    let mut i: usize = 0;
    while i < results.len() - impulse_end
        invariant
            impulse_end <= results.len(),
            i <= results.len() - impulse_end,
            forall|j: int|
                0 <= j < i ==> !which.error_in(#[trigger] results@[impulse_end + j]).below(
                    threshold,
                ),
        decreases results.len() - impulse_end - i,
    {
        if which.error_of(&results[impulse_end + i]).lt(threshold) {
            return i;
        }
        i += 1;
    }
    results.len() - impulse_end
}

} // verus!
