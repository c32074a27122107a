//! Kinematic observer: predicts position, drift and slew over one time
//! step, weighs the channels by their softness-additive trust and corrects
//! the prediction by the weighted aggregate residual.
use vstd::prelude::*;
use crate::binary64::Binary64;
use crate::binary64::number;
use crate::binary64::ONE_BITS;
use crate::binary64::ZERO_BITS;
use crate::envelope::forgetting_factor_ok;
use crate::envelope::is_forgetting_factor;
use crate::error::ConfigurationError;
use crate::error::Field;
use crate::error::InputError;
use crate::hret::dot;
use crate::hret::dot_product;
use crate::hret::zero_vector;
use crate::hret::zeros;
use crate::params::DsfbParams;
use crate::state::DsfbState;
use crate::trust::advanced_envelopes;
use crate::trust::calculate_trust_weights;
use crate::trust::normalized;
use crate::trust::softness_scores;
use crate::trust::TrustMap;
use crate::trust::TrustStats;
use crate::validate::first_violation;
use crate::validate::input_rejection;
use crate::validate::Rule;
use crate::validate::validate_input;

verus! {

/// The state one time step ahead under constant slew:
/// `phi + omega * dt`, `omega + alpha * dt`, `alpha`.
pub open spec fn predicted(state: DsfbState, dt: Binary64) -> DsfbState {
    DsfbState {
        phi: state.phi.plus(state.omega.times(dt)),
        omega: state.omega.plus(state.alpha.times(dt)),
        alpha: state.alpha,
    }
}

/// Each measurement minus the predicted position.
pub open spec fn residuals_against(measurements: Seq<Binary64>, phi: Binary64) -> Seq<Binary64> {
    Seq::new(measurements.len(), |k: int| measurements[k].minus(phi))
}

/// The prediction moved by the aggregate residual, each component by its
/// own gain.
pub open spec fn corrected(params: DsfbParams, prediction: DsfbState, aggregate: Binary64)
    -> DsfbState {
    DsfbState {
        phi: prediction.phi.plus(params.k_phi.times(aggregate)),
        omega: prediction.omega.plus(params.k_omega.times(aggregate)),
        alpha: prediction.alpha.plus(params.k_alpha.times(aggregate)),
    }
}

/// The rejection of a kinematic configuration, if any. The channel count is
/// checked first, then `rho`, `sigma0` and the three gains.
pub open spec fn kinematic_rejection(params: DsfbParams, channels: usize) -> Option<
    ConfigurationError,
> {
    if channels == 0 {
        Some(ConfigurationError::NotPositive { field: Field::ChannelCount })
    } else if !is_forgetting_factor(params.rho) {
        Some(ConfigurationError::NotInUnitInterval { field: Field::Rho, index: None, bits: params.rho.bits })
    } else if !(TrustMap::SoftnessAdditive { sigma0: params.sigma0 }).is_admissible() {
        Some(ConfigurationError::NotAboveZero { field: Field::Sigma0, bits: params.sigma0.bits })
    } else if !params.k_phi.is_finite_spec() {
        Some(ConfigurationError::NotFinite { field: Field::KPhi, bits: params.k_phi.bits })
    } else if !params.k_omega.is_finite_spec() {
        Some(ConfigurationError::NotFinite { field: Field::KOmega, bits: params.k_omega.bits })
    } else if !params.k_alpha.is_finite_spec() {
        Some(ConfigurationError::NotFinite { field: Field::KAlpha, bits: params.k_alpha.bits })
    } else {
        None
    }
}

/// The kinematic observer as a mathematical value.
pub struct DsfbModel {
    pub params: DsfbParams,
    pub state: DsfbState,
    /// Envelope of each channel.
    pub envelopes: Seq<Binary64>,
    /// Weight that each channel had in the last step.
    pub weights: Seq<Binary64>,
}

impl DsfbModel {
    /// The channel count.
    pub open spec fn channels(self) -> nat {
        self.envelopes.len()
    }

    /// The residuals that `measurements` leave against the position
    /// predicted over `dt`.
    pub open spec fn residuals(self, measurements: Seq<Binary64>, dt: Binary64) -> Seq<Binary64> {
        residuals_against(measurements, predicted(self.state, dt).phi)
    }

    /// The rejection of a step, if any: the measurements are refused as
    /// any input vector is; else the time step must be finite; else every
    /// residual against the prediction must be.
    pub open spec fn rejection(self, measurements: Seq<Binary64>, dt: Binary64) -> Option<
        InputError,
    > {
        match input_rejection(self.channels() as usize, measurements) {
            Some(e) => Some(e),
            None => if !dt.is_finite_spec() {
                Some(InputError::TimeStepNotFinite)
            } else {
                match first_violation(self.residuals(measurements, dt), Rule::Finite) {
                    Some(index) => Some(
                        InputError::ResidualNotFinite {
                            index,
                            bits: self.residuals(measurements, dt)[index as int].bits,
                        },
                    ),
                    None => None,
                }
            },
        }
    }

    /// The model after a step with `measurements` over `dt`.
    pub open spec fn stepped(self, measurements: Seq<Binary64>, dt: Binary64) -> DsfbModel {
        let residuals = self.residuals(measurements, dt);
        let envelopes = advanced_envelopes(self.params.rho, self.envelopes, residuals);
        let weights = normalized(softness_scores(self.params.sigma0, envelopes, residuals.len()));
        DsfbModel {
            params: self.params,
            state: corrected(self.params, predicted(self.state, dt), dot(weights, residuals)),
            envelopes,
            weights,
        }
    }
}

/// Observer of position, drift and slew over several channels.
#[derive(Debug)]
pub struct DsfbObserver {
    params: DsfbParams,
    channels: usize,
    state: DsfbState,
    ema_residuals: Vec<Binary64>,
    trust_stats: Vec<TrustStats>,
}

impl View for DsfbObserver {
    type V = DsfbModel;

    closed spec fn view(&self) -> DsfbModel {
        DsfbModel {
            params: self.params,
            state: self.state,
            envelopes: self.ema_residuals@,
            weights: Seq::new(self.trust_stats@.len(), |k: int| self.trust_stats@[k].weight),
        }
    }
}

impl DsfbObserver {
    /// One envelope and one statistics entry per channel, the two in
    /// agreement, under a configuration that construction accepts.
    pub closed spec fn wf(&self) -> bool {
        &&& kinematic_rejection(self.params, self.channels) is None
        &&& self.ema_residuals@.len() == self.channels
        &&& self.trust_stats@.len() == self.channels
        &&& forall|k: int|
            0 <= k < self.channels ==> (#[trigger] self.trust_stats@[k]).residual_ema
                == self.ema_residuals@[k]
    }

    /// Builds an observer at rest in the origin, every envelope at zero and
    /// every weight at one, or says why the configuration is refused.
    pub fn new(params: DsfbParams, channels: usize) -> (r: Result<
        DsfbObserver,
        ConfigurationError,
    >)
        ensures
            match r {
                Ok(observer) => {
                    &&& kinematic_rejection(params, channels) is None
                    &&& observer.wf()
                    &&& observer@ == (DsfbModel {
                        params,
                        state: DsfbState::origin(),
                        envelopes: zeros(channels as nat),
                        weights: Seq::new(channels as nat, |k: int| number(ONE_BITS)),
                    })
                },
                Err(e) => kinematic_rejection(params, channels) == Some(e),
            },
    {
        if channels == 0 {
            return Err(ConfigurationError::NotPositive { field: Field::ChannelCount });
        }
        if !forgetting_factor_ok(params.rho) {
            return Err(ConfigurationError::NotInUnitInterval { field: Field::Rho, index: None, bits: params.rho.bits });
        }
        if !(TrustMap::SoftnessAdditive { sigma0: params.sigma0 }).admissible() {
            return Err(ConfigurationError::NotAboveZero { field: Field::Sigma0, bits: params.sigma0.bits });
        }
        if !params.k_phi.is_finite() {
            return Err(ConfigurationError::NotFinite { field: Field::KPhi, bits: params.k_phi.bits });
        }
        if !params.k_omega.is_finite() {
            return Err(ConfigurationError::NotFinite { field: Field::KOmega, bits: params.k_omega.bits });
        }
        if !params.k_alpha.is_finite() {
            return Err(ConfigurationError::NotFinite { field: Field::KAlpha, bits: params.k_alpha.bits });
        }
        let ema_residuals = zero_vector(channels);
        let mut trust_stats: Vec<TrustStats> = Vec::new();
        let mut k: usize = 0;
        while k < channels
            invariant
                k <= channels,
                trust_stats@.len() == k,
                forall|j: int|
                    0 <= j < k ==> (#[trigger] trust_stats@[j]).residual_ema == number(ZERO_BITS)
                        && trust_stats@[j].weight == number(ONE_BITS),
            decreases channels - k,
        {
            trust_stats.push(TrustStats::new());
            k += 1;
        }
        let observer = DsfbObserver {
            params,
            channels,
            state: DsfbState::zero(),
            ema_residuals,
            trust_stats,
        };
        assert(observer@.weights =~= Seq::new(channels as nat, |k: int| number(ONE_BITS)));
        Ok(observer)
    }

    /// Sets the state estimate. Envelopes and weights stay.
    pub fn init(&mut self, initial_state: DsfbState)
        requires
            old(self).wf(),
        ensures
            final(self).wf(),
            final(self)@ == (DsfbModel { state: initial_state, ..old(self)@ }),
    {
        self.state = initial_state;
    }

    /// Performs one step: predicts over `dt`, takes the measurements in and
    /// returns the corrected state. The step is refused, and the observer
    /// stays exactly as it was, where the measurement vector has the wrong
    /// length or holds an infinity or a NaN, where `dt` is infinite or NaN,
    /// or where a residual against the prediction is.
    pub fn step(&mut self, measurements: &Vec<Binary64>, dt: Binary64) -> (r: Result<
        DsfbState,
        InputError,
    >)
        requires
            old(self).wf(),
        ensures
            final(self).wf(),
            match r {
                Ok(state) => {
                    &&& old(self)@.rejection(measurements@, dt) is None
                    &&& final(self)@ == old(self)@.stepped(measurements@, dt)
                    &&& state == final(self)@.state
                },
                Err(e) => {
                    &&& old(self)@.rejection(measurements@, dt) == Some(e)
                    &&& *final(self) == *old(self)
                },
            },
    {
        match validate_input(self.channels, measurements) {
            Err(e) => return Err(e),
            Ok(_) => {},
        }
        if !dt.is_finite() {
            return Err(InputError::TimeStepNotFinite);
        }
        let phi_pred = self.state.phi.add_rounded(self.state.omega.mul_rounded(dt));
        let omega_pred = self.state.omega.add_rounded(self.state.alpha.mul_rounded(dt));
        let alpha_pred = self.state.alpha;

        let mut residuals: Vec<Binary64> = Vec::new();
        let mut k: usize = 0;
        while k < measurements.len()
            invariant
                k <= measurements.len(),
                residuals@.len() == k,
                forall|j: int| 0 <= j < k ==> residuals@[j] == measurements@[j].minus(phi_pred),
            decreases measurements.len() - k,
        {
            residuals.push(measurements[k].sub_rounded(phi_pred));
            k += 1;
        }
        assert(residuals@ =~= old(self)@.residuals(measurements@, dt));

        let weights = match calculate_trust_weights(
            &residuals,
            &mut self.ema_residuals,
            self.params.rho,
            self.params.sigma0,
        ) {
            Ok(weights) => weights,
            Err(InputError::NotFinite { index, bits }) => {
                return Err(InputError::ResidualNotFinite { index, bits });
            },
            Err(e) => {
                return Err(e);
            },
        };

        let ghost envelopes = self.ema_residuals@;
        let mut k: usize = 0;
        while k < self.channels
            invariant
                k <= self.channels,
                self.params == old(self).params,
                self.state == old(self).state,
                self.channels == old(self).channels,
                self.ema_residuals@ == envelopes,
                self.channels == weights.len(),
                self.channels == self.ema_residuals.len(),
                self.channels == self.trust_stats.len(),
                forall|j: int|
                    0 <= j < k ==> (#[trigger] self.trust_stats@[j]).residual_ema
                        == self.ema_residuals@[j] && self.trust_stats@[j].weight == weights@[j],
            decreases self.channels - k,
        {
            self.trust_stats.set(
                k,
                TrustStats { residual_ema: self.ema_residuals[k], weight: weights[k] },
            );
            k += 1;
        }

        let aggregate_residual = dot_product(&weights, &residuals);

        let phi = phi_pred.add_rounded(self.params.k_phi.mul_rounded(aggregate_residual));
        let omega = omega_pred.add_rounded(self.params.k_omega.mul_rounded(aggregate_residual));
        let alpha = alpha_pred.add_rounded(self.params.k_alpha.mul_rounded(aggregate_residual));

        self.state = DsfbState::new(phi, omega, alpha);
        assert(self@.weights =~= weights@);
        Ok(self.state)
    }

    /// The present state estimate.
    pub fn state(&self) -> (r: DsfbState)
        ensures
            r == self@.state,
    {
        self.state
    }

    /// The channel count.
    pub fn channel_count(&self) -> (r: usize)
        requires
            self.wf(),
        ensures
            r == self@.channels(),
    {
        self.channels
    }

    /// Envelope and weight of every channel.
    pub fn trust_stats(&self) -> (r: &Vec<TrustStats>)
        requires
            self.wf(),
        ensures
            r@.len() == self@.channels(),
            forall|k: int|
                0 <= k < r@.len() ==> (#[trigger] r@[k]).residual_ema == self@.envelopes[k]
                    && r@[k].weight == self@.weights[k],
    {
        &self.trust_stats
    }

    /// The weight that `channel` had in the last step.
    pub fn trust_weight(&self, channel: usize) -> (r: Binary64)
        requires
            self.wf(),
            channel < self@.channels(),
        ensures
            r == self@.weights[channel as int],
    {
        self.trust_stats[channel].weight
    }

    /// The envelope of `channel`.
    pub fn ema_residual(&self, channel: usize) -> (r: Binary64)
        requires
            self.wf(),
            channel < self@.channels(),
        ensures
            r == self@.envelopes[channel as int],
    {
        self.trust_stats[channel].residual_ema
    }
}

} // verus!
