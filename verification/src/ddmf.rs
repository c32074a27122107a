//! How one residual envelope and its trust fare under a disturbance: single
//! runs, runs over several channels, and the records of many runs.
use vstd::prelude::*;
use crate::binary64::Binary64;
use crate::binary64::count_number;
use crate::binary64::number;
use crate::binary64::ONE_BITS;
use crate::binary64::ZERO_BITS;
use crate::disturbances::build_disturbance;
use crate::disturbances::built;
use crate::disturbances::Disturbance;
use crate::disturbances::DisturbanceKind;
use crate::envelope::advance_envelope;
use crate::envelope::envelope_next;
use crate::envelope::finite_non_negative_ok;
use crate::envelope::forgetting_factor_ok;
use crate::envelope::is_finite_non_negative;
use crate::envelope::is_forgetting_factor;
use crate::error::ConfigurationError;
use crate::error::Field;
use crate::trust::bounded_affine;
use crate::trust::TrustStats;
use crate::trust::TrustWeight;

verus! {

/// Pattern of `0.02`: growth of the start envelope per channel key.
pub const START_ENVELOPE_STEP_BITS: u64 = 0x3F94_7AE1_47AE_147B;

/// Pattern of `0.37`: growth of the noise phase per channel key.
pub const PHASE_STEP_BITS: u64 = 0x3FD7_AE14_7AE1_47AE;

/// Pattern of `0.17`, the rate of the sine wave in the noise.
pub const SINE_RATE_BITS: u64 = 0x3FC5_C28F_5C28_F5C3;

/// Pattern of `0.043`, the rate of the cosine wave in the noise.
pub const COSINE_RATE_BITS: u64 = 0x3FA6_0418_9374_BC6A;

/// Pattern of `0.6`, the share of the sine wave in the noise.
pub const SINE_SHARE_BITS: u64 = 0x3FE3_3333_3333_3333;

/// Pattern of `0.4`, the share of the cosine wave in the noise.
pub const COSINE_SHARE_BITS: u64 = 0x3FD9_9999_9999_999A;

/// Pattern of `0.5`.
pub const HALF_BITS: u64 = 0x3FE0_0000_0000_0000;

/// What a run is made of.
#[derive(Clone, Copy, Debug)]
pub struct SimulationConfig {
    pub n_steps: usize,
    pub rho: Binary64,
    pub beta: Binary64,
    pub disturbance_kind: DisturbanceKind,
    pub epsilon_bound: Binary64,
}

/// The envelope `s`, the trust `w`, the residual `r` and the disturbance
/// `d` of every step of a run.
#[derive(Debug, Default)]
pub struct SimulationResult {
    pub s: Vec<Binary64>,
    pub w: Vec<Binary64>,
    pub r: Vec<Binary64>,
    pub d: Vec<Binary64>,
}

impl SimulationResult {
    /// The four series have one entry per step.
    pub open spec fn wf(&self) -> bool {
        self.w@.len() == self.s@.len() && self.r@.len() == self.s@.len() && self.d@.len()
            == self.s@.len()
    }

    pub fn len(&self) -> (r: usize)
        ensures
            r == self.s@.len(),
    {
        self.s.len()
    }

    pub fn is_empty(&self) -> (r: bool)
        ensures
            r == (self.s@.len() == 0),
    {
        self.s.len() == 0
    }

    /// Envelope and trust at the end of the run; 0 and 1 where a series is
    /// empty.
    pub fn final_trust_stats(&self) -> (r: TrustStats)
        ensures
            r.residual_ema == (if self.s@.len() == 0 {
                number(ZERO_BITS)
            } else {
                self.s@.last()
            }),
            r.weight == (if self.w@.len() == 0 {
                number(ONE_BITS)
            } else {
                self.w@.last()
            }),
    {
        let residual_ema = if self.s.len() == 0 {
            Binary64::zero()
        } else {
            self.s[self.s.len() - 1]
        };
        let weight = if self.w.len() == 0 {
            Binary64::one()
        } else {
            self.w[self.w.len() - 1]
        };
        TrustStats { residual_ema, weight }
    }
}

/// Why a run came to nothing.
#[derive(Clone, Copy, Debug, PartialEq, Eq, Structural)]
pub enum SimulationFault {
    /// A parameter of the run is refused.
    Configuration(ConfigurationError),
    /// The bound of a drift is negative or a NaN.
    DriftBound,
    /// There is not one noise entry per step.
    NoiseLength { expected: usize, got: usize },
    /// The residual of the given step is infinite or NaN.
    Residual { step: usize },
    /// The envelope became infinite at the given step.
    Envelope { step: usize },
    /// There is not one group assignment, or not one noise series, per
    /// channel.
    CountMismatch { expected: usize, got: usize },
}

/// A sensitivity of a single channel is a finite number above 0.
pub open spec fn is_sensitivity(beta: Binary64) -> bool {
    beta.is_finite_spec() && beta.exceeds(number(ZERO_BITS))
}

/// The refusal of the parameters of a run, if any, in the order in which
/// they are checked.
pub open spec fn run_rejection(config: SimulationConfig, s0: Binary64, kind: DisturbanceKind)
    -> Option<SimulationFault> {
    if config.n_steps == 0 {
        Some(
            SimulationFault::Configuration(ConfigurationError::NotPositive { field: Field::Steps }),
        )
    } else if !is_forgetting_factor(config.rho) {
        Some(
            SimulationFault::Configuration(
                ConfigurationError::NotInUnitInterval { field: Field::Rho, index: None, bits: config.rho.bits },
            ),
        )
    } else if !is_sensitivity(config.beta) {
        Some(
            SimulationFault::Configuration(ConfigurationError::NotAboveZero { field: Field::Beta, bits: config.beta.bits }),
        )
    } else if !is_finite_non_negative(config.epsilon_bound) {
        Some(
            SimulationFault::Configuration(
                ConfigurationError::NotFiniteNonNegative {
                    field: Field::EpsilonBound,
                    index: None,
                    bits: config.epsilon_bound.bits,
                },
            ),
        )
    } else if !is_finite_non_negative(s0) {
        Some(
            SimulationFault::Configuration(
                ConfigurationError::NotFiniteNonNegative { field: Field::Envelope, index: None, bits: s0.bits },
            ),
        )
    } else if !kind.is_runnable() {
        Some(SimulationFault::DriftBound)
    } else {
        None
    }
}

/// The disturbance after its first `n` steps.
pub open spec fn disturbance_after(start: Disturbance, n: nat) -> Disturbance
    decreases n,
{
    if n == 0 {
        start
    } else {
        disturbance_after(start, (n - 1) as nat).after((n - 1) as usize)
    }
}

/// The residual of step `n`: the noise plus the disturbance.
pub open spec fn residual_at(start: Disturbance, epsilon: Seq<Binary64>, n: nat) -> Binary64 {
    epsilon[n as int].plus(disturbance_after(start, n).value_at(n as usize))
}

/// The envelope after the first `n` steps.
pub open spec fn envelope_after(
    rho: Binary64,
    s0: Binary64,
    start: Disturbance,
    epsilon: Seq<Binary64>,
    n: nat,
) -> Binary64
    decreases n,
{
    if n == 0 {
        s0
    } else {
        envelope_next(
            rho,
            envelope_after(rho, s0, start, epsilon, (n - 1) as nat),
            residual_at(start, epsilon, (n - 1) as nat),
        )
    }
}

/// Step `n` can be taken: its residual is finite and so is the envelope it
/// leads to.
pub open spec fn step_is_sound(
    rho: Binary64,
    s0: Binary64,
    start: Disturbance,
    epsilon: Seq<Binary64>,
    n: nat,
) -> bool {
    residual_at(start, epsilon, n).is_finite_spec() && is_finite_non_negative(
        envelope_after(rho, s0, start, epsilon, n + 1),
    )
}

/// `result` holds the first `n` steps of the run from envelope `s0` under
/// the disturbance `kind` and the noise `epsilon`.
pub open spec fn is_trace(
    result: SimulationResult,
    n: nat,
    config: SimulationConfig,
    s0: Binary64,
    kind: DisturbanceKind,
    epsilon: Seq<Binary64>,
) -> bool {
    &&& result.s@.len() == n
    &&& result.wf()
    &&& forall|i: int|
        0 <= i < n ==> {
            &&& #[trigger] result.d@[i] == disturbance_after(built(kind).restarted(), i as nat)
                .value_at(i as usize)
            &&& result.r@[i] == residual_at(built(kind).restarted(), epsilon, i as nat)
            &&& result.s@[i] == envelope_after(
                config.rho,
                s0,
                built(kind).restarted(),
                epsilon,
                (i + 1) as nat,
            )
            &&& result.w@[i] == bounded_affine(config.beta, result.s@[i])
            &&& step_is_sound(config.rho, s0, built(kind).restarted(), epsilon, i as nat)
        }
}

/// The first of the first `upto` steps that cannot be taken, if there is
/// one.
pub open spec fn first_unsound(
    rho: Binary64,
    s0: Binary64,
    start: Disturbance,
    epsilon: Seq<Binary64>,
    upto: nat,
) -> Option<nat>
    decreases upto,
{
    if upto == 0 {
        None
    } else {
        match first_unsound(rho, s0, start, epsilon, (upto - 1) as nat) {
            Some(step) => Some(step),
            None => if step_is_sound(rho, s0, start, epsilon, (upto - 1) as nat) {
                None
            } else {
                Some((upto - 1) as nat)
            },
        }
    }
}

/// Why a run comes to nothing, if it does: a parameter is refused; or
/// there is not one noise entry per step; or, at the first step that cannot
/// be taken, the residual is not finite, or else the envelope is not.
/// Every other run succeeds.
pub open spec fn run_fault(
    config: SimulationConfig,
    s0: Binary64,
    kind: DisturbanceKind,
    epsilon: Seq<Binary64>,
) -> Option<SimulationFault> {
    match run_rejection(config, s0, kind) {
        Some(e) => Some(e),
        None => if epsilon.len() != config.n_steps {
            Some(
                SimulationFault::NoiseLength {
                    expected: config.n_steps,
                    got: epsilon.len() as usize,
                },
            )
        } else {
            match first_unsound(
                config.rho,
                s0,
                built(kind).restarted(),
                epsilon,
                config.n_steps as nat,
            ) {
                None => None,
                Some(step) => if !residual_at(built(kind).restarted(), epsilon, step)
                    .is_finite_spec() {
                    Some(SimulationFault::Residual { step: step as usize })
                } else {
                    Some(SimulationFault::Envelope { step: step as usize })
                },
            }
        },
    }
}

/// The envelope after each step of a run.
pub open spec fn envelopes_of(
    config: SimulationConfig,
    s0: Binary64,
    kind: DisturbanceKind,
    epsilon: Seq<Binary64>,
) -> Seq<Binary64> {
    Seq::new(
        config.n_steps as nat,
        |i: int| envelope_after(config.rho, s0, built(kind).restarted(), epsilon, (i + 1) as nat),
    )
}

/// The trust after each step of a run.
pub open spec fn trusts_of(
    config: SimulationConfig,
    s0: Binary64,
    kind: DisturbanceKind,
    epsilon: Seq<Binary64>,
) -> Seq<Binary64> {
    Seq::new(
        config.n_steps as nat,
        |i: int| bounded_affine(config.beta, envelopes_of(config, s0, kind, epsilon)[i]),
    )
}

/// Where every one of the first `upto` steps can be taken, none of them is
/// the first that cannot.
pub proof fn lemma_every_step_sound(
    rho: Binary64,
    s0: Binary64,
    start: Disturbance,
    epsilon: Seq<Binary64>,
    upto: nat,
)
    requires
        forall|i: int| 0 <= i < upto ==> #[trigger] step_is_sound(rho, s0, start, epsilon, i as nat),
    ensures
        first_unsound(rho, s0, start, epsilon, upto) is None,
    decreases upto,
{
    if upto > 0 {
        lemma_every_step_sound(rho, s0, start, epsilon, (upto - 1) as nat);
        assert(step_is_sound(rho, s0, start, epsilon, (upto - 1) as nat));
    }
}

/// A step that cannot be taken, behind steps that all can, is the first
/// that cannot.
pub proof fn lemma_first_unsound_step(
    rho: Binary64,
    s0: Binary64,
    start: Disturbance,
    epsilon: Seq<Binary64>,
    step: nat,
    upto: nat,
)
    requires
        step < upto,
        !step_is_sound(rho, s0, start, epsilon, step),
        forall|i: int| 0 <= i < step ==> #[trigger] step_is_sound(rho, s0, start, epsilon, i as nat),
    ensures
        first_unsound(rho, s0, start, epsilon, upto) == Some(step),
    decreases upto,
{
    if upto == step + 1 {
        lemma_every_step_sound(rho, s0, start, epsilon, step);
    } else {
        lemma_first_unsound_step(rho, s0, start, epsilon, step, (upto - 1) as nat);
    }
}

/// The envelopes and trusts of a trace are those of the run.
pub proof fn lemma_trace_series(
    result: SimulationResult,
    config: SimulationConfig,
    s0: Binary64,
    kind: DisturbanceKind,
    epsilon: Seq<Binary64>,
)
    requires
        is_trace(result, config.n_steps as nat, config, s0, kind, epsilon),
    ensures
        result.s@ == envelopes_of(config, s0, kind, epsilon),
        result.w@ == trusts_of(config, s0, kind, epsilon),
{
    assert forall|i: int| 0 <= i < config.n_steps implies result.s@[i] == envelopes_of(
        config,
        s0,
        kind,
        epsilon,
    )[i] && result.w@[i] == trusts_of(config, s0, kind, epsilon)[i] by {
        let _ = result.d@[i];
    }
    assert(result.s@ =~= envelopes_of(config, s0, kind, epsilon));
    assert(result.w@ =~= trusts_of(config, s0, kind, epsilon));
}

/// Runs `config.n_steps` steps of one channel: at each step the residual is
/// the noise plus the disturbance, the envelope takes the residual in, and
/// the trust follows from the envelope.
pub fn simulate_channel(
    config: &SimulationConfig,
    s0: Binary64,
    disturbance_kind: &DisturbanceKind,
    epsilon: &Vec<Binary64>,
) -> (r: Result<SimulationResult, SimulationFault>)
    ensures
        match r {
            Ok(result) => {
                &&& run_fault(*config, s0, *disturbance_kind, epsilon@) is None
                &&& is_trace(
                    result,
                    config.n_steps as nat,
                    *config,
                    s0,
                    *disturbance_kind,
                    epsilon@,
                )
            },
            Err(e) => run_fault(*config, s0, *disturbance_kind, epsilon@) == Some(e),
        },
{
    if config.n_steps == 0 {
        return Err(
            SimulationFault::Configuration(ConfigurationError::NotPositive { field: Field::Steps }),
        );
    }
    if !forgetting_factor_ok(config.rho) {
        return Err(
            SimulationFault::Configuration(
                ConfigurationError::NotInUnitInterval { field: Field::Rho, index: None, bits: config.rho.bits },
            ),
        );
    }
    if !(config.beta.is_finite() && config.beta.gt(Binary64::zero())) {
        return Err(
            SimulationFault::Configuration(ConfigurationError::NotAboveZero { field: Field::Beta, bits: config.beta.bits }),
        );
    }
    if !finite_non_negative_ok(config.epsilon_bound) {
        return Err(
            SimulationFault::Configuration(
                ConfigurationError::NotFiniteNonNegative {
                    field: Field::EpsilonBound,
                    index: None,
                    bits: config.epsilon_bound.bits,
                },
            ),
        );
    }
    if !finite_non_negative_ok(s0) {
        return Err(
            SimulationFault::Configuration(
                ConfigurationError::NotFiniteNonNegative { field: Field::Envelope, index: None, bits: s0.bits },
            ),
        );
    }
    if !disturbance_kind.runnable() {
        return Err(SimulationFault::DriftBound);
    }
    if epsilon.len() != config.n_steps {
        return Err(
            SimulationFault::NoiseLength { expected: config.n_steps, got: epsilon.len() },
        );
    }
    let mut disturbance = build_disturbance(disturbance_kind);
    disturbance.reset();
    let ghost start = built(*disturbance_kind).restarted();
    let mut envelope = s0;

    let mut result = SimulationResult {
        s: Vec::new(),
        w: Vec::new(),
        r: Vec::new(),
        d: Vec::new(),
    };
    let mut n: usize = 0;
    while n < config.n_steps
        invariant
            n <= config.n_steps,
            epsilon.len() == config.n_steps,
            run_rejection(*config, s0, *disturbance_kind) is None,
            start == built(*disturbance_kind).restarted(),
            disturbance == disturbance_after(start, n as nat),
            disturbance.is_runnable(),
            envelope == envelope_after(config.rho, s0, start, epsilon@, n as nat),
            is_trace(result, n as nat, *config, s0, *disturbance_kind, epsilon@),
        decreases config.n_steps - n,
    {
        let d = disturbance.next(n);
        let r = epsilon[n].add_rounded(d);
        if !r.is_finite() {
            proof {
                assert forall|i: int| 0 <= i < n implies #[trigger] step_is_sound(
                    config.rho,
                    s0,
                    start,
                    epsilon@,
                    i as nat,
                ) by {
                    let _ = result.d@[i];
                }
                lemma_first_unsound_step(
                    config.rho,
                    s0,
                    start,
                    epsilon@,
                    n as nat,
                    config.n_steps as nat,
                );
            }
            return Err(SimulationFault::Residual { step: n });
        }
        let s = advance_envelope(config.rho, envelope, r);
        if !finite_non_negative_ok(s) {
            proof {
                assert forall|i: int| 0 <= i < n implies #[trigger] step_is_sound(
                    config.rho,
                    s0,
                    start,
                    epsilon@,
                    i as nat,
                ) by {
                    let _ = result.d@[i];
                }
                lemma_first_unsound_step(
                    config.rho,
                    s0,
                    start,
                    epsilon@,
                    n as nat,
                    config.n_steps as nat,
                );
            }
            return Err(SimulationFault::Envelope { step: n });
        }
        let w = TrustWeight::weight(config.beta, s);
        envelope = s;

        result.d.push(d);
        result.r.push(r);
        result.s.push(s);
        result.w.push(w);
        n += 1;
    }
    proof {
        assert forall|i: int| 0 <= i < config.n_steps implies #[trigger] step_is_sound(
            config.rho,
            s0,
            start,
            epsilon@,
            i as nat,
        ) by {
            let _ = result.d@[i];
        }
        lemma_every_step_sound(config.rho, s0, start, epsilon@, config.n_steps as nat);
    }
    Ok(result)
}

/// A run from a zero envelope.
pub fn run_simulation(config: &SimulationConfig, epsilon: &Vec<Binary64>) -> (r: Result<
    SimulationResult,
    SimulationFault,
>)
    ensures
        match r {
            Ok(result) => {
                &&& run_fault(*config, number(ZERO_BITS), config.disturbance_kind, epsilon@) is None
                &&& is_trace(
                    result,
                    config.n_steps as nat,
                    *config,
                    number(ZERO_BITS),
                    config.disturbance_kind,
                    epsilon@,
                )
            },
            Err(e) => run_fault(*config, number(ZERO_BITS), config.disturbance_kind, epsilon@)
                == Some(e),
        },
{
    run_simulation_with_s0(config, Binary64::zero(), epsilon)
}

/// A run from the envelope `s0`.
pub fn run_simulation_with_s0(config: &SimulationConfig, s0: Binary64, epsilon: &Vec<Binary64>)
    -> (r: Result<SimulationResult, SimulationFault>)
    ensures
        match r {
            Ok(result) => {
                &&& run_fault(*config, s0, config.disturbance_kind, epsilon@) is None
                &&& is_trace(
                    result,
                    config.n_steps as nat,
                    *config,
                    s0,
                    config.disturbance_kind,
                    epsilon@,
                )
            },
            Err(e) => run_fault(*config, s0, config.disturbance_kind, epsilon@) == Some(e),
        },
{
    simulate_channel(config, s0, &config.disturbance_kind, epsilon)
}

/// The key under which a channel is run: its group where the groups are
/// correlated, else its own index.
pub open spec fn channel_key(groups: Option<Seq<usize>>, correlated: bool, channel: int) -> usize {
    match groups {
        Some(assignments) => if correlated {
            assignments[channel]
        } else {
            channel as usize
        },
        None => channel as usize,
    }
}

/// The start envelope of the channel with the given key, `0.02 * key`.
pub open spec fn start_envelope(key: usize) -> Binary64 {
    number(START_ENVELOPE_STEP_BITS).times(count_number(key as nat))
}

/// The noise series of the channels.
pub open spec fn series_of(epsilons: Vec<Vec<Binary64>>) -> Seq<Seq<Binary64>> {
    Seq::new(epsilons@.len(), |c: int| epsilons@[c]@)
}

/// Why the run of channel `c` comes to nothing, if it does.
pub open spec fn channel_fault(
    config: SimulationConfig,
    groups: Option<Seq<usize>>,
    correlated: bool,
    epsilons: Seq<Seq<Binary64>>,
    c: int,
) -> Option<SimulationFault> {
    let key = channel_key(groups, correlated, c);
    run_fault(
        config,
        start_envelope(key),
        config.disturbance_kind.channelized_as(key),
        epsilons[c],
    )
}

/// The fault of the first of the first `upto` channels whose run comes to
/// nothing, if there is one.
pub open spec fn first_channel_fault(
    config: SimulationConfig,
    groups: Option<Seq<usize>>,
    correlated: bool,
    epsilons: Seq<Seq<Binary64>>,
    upto: nat,
) -> Option<SimulationFault>
    decreases upto,
{
    if upto == 0 {
        None
    } else {
        match first_channel_fault(config, groups, correlated, epsilons, (upto - 1) as nat) {
            Some(e) => Some(e),
            None => channel_fault(config, groups, correlated, epsilons, upto - 1),
        }
    }
}

/// Why a run over several channels comes to nothing, if it does: there is
/// no channel; or there is not one group assignment, or not one noise
/// series, per channel; or the run of a channel comes to nothing, and then
/// the fault is that of the first such channel.
pub open spec fn multichannel_fault(
    config: SimulationConfig,
    n_channels: usize,
    groups: Option<Seq<usize>>,
    correlated: bool,
    epsilons: Seq<Seq<Binary64>>,
) -> Option<SimulationFault> {
    if n_channels == 0 {
        Some(
            SimulationFault::Configuration(
                ConfigurationError::NotPositive { field: Field::ChannelCount },
            ),
        )
    } else if groups matches Some(assignments) && assignments.len() != n_channels {
        Some(
            SimulationFault::CountMismatch {
                expected: n_channels,
                got: groups->Some_0.len() as usize,
            },
        )
    } else if epsilons.len() != n_channels {
        Some(SimulationFault::CountMismatch { expected: n_channels, got: epsilons.len() as usize })
    } else {
        first_channel_fault(config, groups, correlated, epsilons, n_channels as nat)
    }
}

/// The fault of a channel stays the first when more channels are looked
/// at.
pub proof fn lemma_first_channel_fault_stays(
    config: SimulationConfig,
    groups: Option<Seq<usize>>,
    correlated: bool,
    epsilons: Seq<Seq<Binary64>>,
    at: nat,
    upto: nat,
)
    requires
        at <= upto,
        first_channel_fault(config, groups, correlated, epsilons, at) is Some,
    ensures
        first_channel_fault(config, groups, correlated, epsilons, upto) == first_channel_fault(
            config,
            groups,
            correlated,
            epsilons,
            at,
        ),
    decreases upto - at,
{
    if at < upto {
        lemma_first_channel_fault_stays(
            config,
            groups,
            correlated,
            epsilons,
            at,
            (upto - 1) as nat,
        );
    }
}

/// One run per channel. Each channel runs under the disturbance as its key
/// sees it and from a start envelope that grows with the key; channels of
/// one group share a key where the groups are correlated. The runs are
/// made in the order of the channels, and the first that comes to nothing
/// ends them.
pub fn run_multichannel_simulation(
    config: &SimulationConfig,
    n_channels: usize,
    group_assignments: Option<&Vec<usize>>,
    correlated_groups: bool,
    epsilons: &Vec<Vec<Binary64>>,
) -> (r: Result<Vec<SimulationResult>, SimulationFault>)
    ensures
        match r {
            Ok(results) => {
                &&& multichannel_fault(
                    *config,
                    n_channels,
                    match group_assignments {
                        Some(groups) => Some(groups@),
                        None => None,
                    },
                    correlated_groups,
                    series_of(*epsilons),
                ) is None
                &&& results@.len() == n_channels
                &&& forall|c: int|
                    0 <= c < n_channels ==> {
                        let key = channel_key(
                            match group_assignments {
                                Some(groups) => Some(groups@),
                                None => None,
                            },
                            correlated_groups,
                            c,
                        );
                        is_trace(
                            #[trigger] results@[c],
                            config.n_steps as nat,
                            *config,
                            start_envelope(key),
                            config.disturbance_kind.channelized_as(key),
                            epsilons@[c]@,
                        )
                    }
            },
            Err(e) => multichannel_fault(
                *config,
                n_channels,
                match group_assignments {
                    Some(groups) => Some(groups@),
                    None => None,
                },
                correlated_groups,
                series_of(*epsilons),
            ) == Some(e),
        },
{
    if n_channels == 0 {
        return Err(
            SimulationFault::Configuration(
                ConfigurationError::NotPositive { field: Field::ChannelCount },
            ),
        );
    }
    match group_assignments {
        Some(groups) => {
            if groups.len() != n_channels {
                return Err(
                    SimulationFault::CountMismatch { expected: n_channels, got: groups.len() },
                );
            }
        },
        None => {},
    }
    if epsilons.len() != n_channels {
        return Err(SimulationFault::CountMismatch { expected: n_channels, got: epsilons.len() });
    }
    let ghost assignments = match group_assignments {
        Some(groups) => Some(groups@),
        None => None,
    };
    let ghost series = series_of(*epsilons);
    let mut results: Vec<SimulationResult> = Vec::new();
    let mut channel_idx: usize = 0;
    while channel_idx < n_channels
        invariant
            channel_idx <= n_channels,
            n_channels > 0,
            epsilons.len() == n_channels,
            group_assignments matches Some(groups) ==> groups.len() == n_channels,
            assignments == (match group_assignments {
                Some(groups) => Some(groups@),
                None => None,
            }),
            series == series_of(*epsilons),
            first_channel_fault(
                *config,
                assignments,
                correlated_groups,
                series,
                channel_idx as nat,
            ) is None,
            results@.len() == channel_idx,
            forall|c: int|
                0 <= c < channel_idx ==> is_trace(
                    #[trigger] results@[c],
                    config.n_steps as nat,
                    *config,
                    start_envelope(channel_key(assignments, correlated_groups, c)),
                    config.disturbance_kind.channelized_as(
                        channel_key(assignments, correlated_groups, c),
                    ),
                    epsilons@[c]@,
                ),
        decreases n_channels - channel_idx,
    {
        let key = match group_assignments {
            Some(groups) => if correlated_groups {
                groups[channel_idx]
            } else {
                channel_idx
            },
            None => channel_idx,
        };
        let kind = config.disturbance_kind.channelized(key);
        let s0 = Binary64::from_bits(START_ENVELOPE_STEP_BITS).mul_rounded(
            Binary64::from_count(key),
        );
        assert(series[channel_idx as int] == epsilons@[channel_idx as int]@);
        match simulate_channel(config, s0, &kind, &epsilons[channel_idx]) {
            Err(e) => {
                proof {
                    assert(channel_fault(
                        *config,
                        assignments,
                        correlated_groups,
                        series,
                        channel_idx as int,
                    ) == Some(e));
                    assert(first_channel_fault(
                        *config,
                        assignments,
                        correlated_groups,
                        series,
                        (channel_idx + 1) as nat,
                    ) == Some(e));
                    lemma_first_channel_fault_stays(
                        *config,
                        assignments,
                        correlated_groups,
                        series,
                        (channel_idx + 1) as nat,
                        n_channels as nat,
                    );
                }
                return Err(e);
            },
            Ok(result) => {
                results.push(result);
            },
        }
        channel_idx += 1;
    }
    Ok(results)
}

/// The phase of the noise of the channel with the given key, `key * 0.37`.
pub open spec fn noise_phase_of(key: usize) -> Binary64 {
    count_number(key as nat).times(number(PHASE_STEP_BITS))
}

/// The angle whose sine enters the noise of step `n`: `0.17 * n + phase`.
pub open spec fn sine_angle_of(n: usize, key: usize) -> Binary64 {
    number(SINE_RATE_BITS).times(count_number(n as nat)).plus(noise_phase_of(key))
}

/// The angle whose cosine enters the noise of step `n`:
/// `0.043 * n + 0.5 * phase`.
pub open spec fn cosine_angle_of(n: usize, key: usize) -> Binary64 {
    number(COSINE_RATE_BITS).times(count_number(n as nat)).plus(
        number(HALF_BITS).times(noise_phase_of(key)),
    )
}

/// The noise made of a sine `a` and a cosine `b`:
/// `bound * (0.6 * a + 0.4 * b)`, and `+0.0` under a zero bound.
pub open spec fn bounded_noise(bound: Binary64, a: Binary64, b: Binary64) -> Binary64 {
    if bound.is_zero_spec() {
        number(ZERO_BITS)
    } else {
        bound.times(number(SINE_SHARE_BITS).times(a).plus(number(COSINE_SHARE_BITS).times(b)))
    }
}

pub fn sine_angle(n: usize, key: usize) -> (r: Binary64)
    ensures
        r == sine_angle_of(n, key),
{
    let phase = Binary64::from_count(key).mul_rounded(Binary64::from_bits(PHASE_STEP_BITS));
    Binary64::from_bits(SINE_RATE_BITS).mul_rounded(Binary64::from_count(n)).add_rounded(phase)
}

pub fn cosine_angle(n: usize, key: usize) -> (r: Binary64)
    ensures
        r == cosine_angle_of(n, key),
{
    let phase = Binary64::from_count(key).mul_rounded(Binary64::from_bits(PHASE_STEP_BITS));
    Binary64::from_bits(COSINE_RATE_BITS).mul_rounded(Binary64::from_count(n)).add_rounded(
        Binary64::from_bits(HALF_BITS).mul_rounded(phase),
    )
}

/// The noise of a step, given the sine `a` and the cosine `b` of its two
/// angles.
pub fn epsilon_from(epsilon_bound: Binary64, a: Binary64, b: Binary64) -> (r: Binary64)
    ensures
        r == bounded_noise(epsilon_bound, a, b),
{
    if epsilon_bound.is_zero() {
        return Binary64::zero();
    }
    epsilon_bound.mul_rounded(
        Binary64::from_bits(SINE_SHARE_BITS).mul_rounded(a).add_rounded(
            Binary64::from_bits(COSINE_SHARE_BITS).mul_rounded(b),
        ),
    )
}

} // verus!
