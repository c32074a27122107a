//! Records of many disturbance runs and what they sum up to. The random
//! draws of a batch are handed in by the caller.
use vstd::prelude::*;
use crate::binary64::Binary64;
use crate::binary64::count_number;
use crate::binary64::number;
use crate::binary64::ONE_BITS;
use crate::binary64::ZERO_BITS;
use crate::ddmf::envelopes_of;
use crate::ddmf::is_trace;
use crate::ddmf::lemma_trace_series;
use crate::ddmf::run_fault;
use crate::ddmf::trusts_of;
use crate::ddmf::run_simulation_with_s0;
use crate::ddmf::SimulationConfig;
use crate::ddmf::SimulationFault;
use crate::ddmf::SimulationResult;
use crate::disturbances::DisturbanceKind;
use crate::disturbances::Regime;
use crate::hret::zero_vector;
use crate::hret::zeros;
use crate::sim::peak;
use crate::trust::running_sum;

verus! {

/// Runs in a batch unless told otherwise.
pub const DEFAULT_MONTE_CARLO_RUNS: usize = 360;

/// Pattern of `0.96`, the default forgetting factor.
pub const DEFAULT_RHO_BITS: u64 = 0x3FEE_B851_EB85_1EB8;

/// Pattern of `3.0`, the default sensitivity.
pub const DEFAULT_BETA_BITS: u64 = 0x4008_0000_0000_0000;

/// Pattern of `0.03`, the default recovery margin.
pub const DEFAULT_RECOVERY_DELTA_BITS: u64 = 0x3F9E_B851_EB85_1EB8;

/// Pattern of `1.4`, the amplitude of the example impulse.
pub const EXAMPLE_AMPLITUDE_BITS: u64 = 0x3FF6_6666_6666_6666;

/// Pattern of `0.05`, the nominal level of the example elevation.
pub const EXAMPLE_NOMINAL_BITS: u64 = 0x3FA9_9999_9999_999A;

/// Pattern of `0.65`, the high level of the example elevation.
pub const EXAMPLE_HIGH_BITS: u64 = 0x3FE4_CCCC_CCCC_CCCD;

/// What a batch of runs is made of.
#[derive(Clone, Copy, Debug)]
pub struct MonteCarloConfig {
    pub n_runs: usize,
    pub n_steps: usize,
    pub seed: u64,
    pub rho: Binary64,
    pub beta: Binary64,
    pub epsilon_bound: Binary64,
    pub recovery_delta: Binary64,
}

impl MonteCarloConfig {
    /// The configuration of `default`: 360 runs of 180 steps, seed 2026,
    /// forgetting factor 0.96, sensitivity 3, no noise, margin 0.03.
    pub open spec fn defaults() -> MonteCarloConfig {
        MonteCarloConfig {
            n_runs: DEFAULT_MONTE_CARLO_RUNS,
            n_steps: 180,
            seed: 2026,
            rho: number(DEFAULT_RHO_BITS),
            beta: number(DEFAULT_BETA_BITS),
            epsilon_bound: number(ZERO_BITS),
            recovery_delta: number(DEFAULT_RECOVERY_DELTA_BITS),
        }
    }

    /// The configuration of every run of the batch under `kind`.
    pub open spec fn run_config(self, kind: DisturbanceKind) -> SimulationConfig {
        SimulationConfig {
            n_steps: self.n_steps,
            rho: self.rho,
            beta: self.beta,
            disturbance_kind: kind,
            epsilon_bound: self.epsilon_bound,
        }
    }
}

impl Default for MonteCarloConfig {
    fn default() -> (r: MonteCarloConfig)
        ensures
            r == MonteCarloConfig::defaults(),
    {
        MonteCarloConfig {
            n_runs: DEFAULT_MONTE_CARLO_RUNS,
            n_steps: 180,
            seed: 2026,
            rho: Binary64::from_bits(DEFAULT_RHO_BITS),
            beta: Binary64::from_bits(DEFAULT_BETA_BITS),
            epsilon_bound: Binary64::zero(),
            recovery_delta: Binary64::from_bits(DEFAULT_RECOVERY_DELTA_BITS),
        }
    }
}

/// The random draws of one run: its disturbance and its start envelope.
#[derive(Clone, Copy, Debug)]
pub struct RunDraw {
    pub kind: DisturbanceKind,
    pub s0: Binary64,
}

/// What is kept of one run.
#[derive(Clone, Copy, Debug)]
pub struct MonteCarloRunRecord {
    pub run_id: usize,
    pub regime: Regime,
    pub kind: DisturbanceKind,
    pub d: Binary64,
    pub b: Binary64,
    pub s: Binary64,
    pub impulse_start: usize,
    pub impulse_len: usize,
    pub s0: Binary64,
    pub max_envelope: Binary64,
    pub min_trust: Binary64,
    /// The step at which the envelope had recovered, or -1.
    pub time_to_recover: i64,
}

/// The records of a batch with two example runs.
#[derive(Debug)]
pub struct MonteCarloBatch {
    pub records: Vec<MonteCarloRunRecord>,
    pub example_impulse: SimulationResult,
    pub example_persistent: SimulationResult,
}

/// How many runs fell under each regime.
#[derive(Clone, Copy, Debug, PartialEq, Eq, Structural)]
pub struct RegimeCounts {
    pub bounded_nominal: usize,
    pub persistent_elevated: usize,
    pub unbounded: usize,
    pub impulsive: usize,
}

/// What a batch sums up to.
#[derive(Clone, Copy, Debug)]
pub struct MonteCarloSummary {
    pub n_runs: usize,
    pub n_steps: usize,
    pub seed: u64,
    pub rho: Binary64,
    pub beta: Binary64,
    pub epsilon_bound: Binary64,
    pub recovery_delta: Binary64,
    pub mean_max_envelope: Binary64,
    pub min_observed_trust: Binary64,
    pub regime_counts: RegimeCounts,
}

/// One step of a run as a row.
#[derive(Clone, Copy, Debug)]
pub struct TrajectoryRow {
    pub n: usize,
    pub r: Binary64,
    pub d: Binary64,
    pub s: Binary64,
    pub w: Binary64,
}

/// The smaller of two numbers: `a` unless `b` lies below it or `a` is a
/// NaN.
pub open spec fn smaller(a: Binary64, b: Binary64) -> Binary64 {
    if a.is_nan_spec() || b.below(a) {
        b
    } else {
        a
    }
}

/// The smallest of `1.0` and the numbers, NaNs passed over.
pub open spec fn trough(xs: Seq<Binary64>) -> Binary64
    decreases xs.len(),
{
    if xs.len() == 0 {
        number(ONE_BITS)
    } else {
        smaller(trough(xs.drop_last()), xs.last())
    }
}

/// The largest of `0.0` and the numbers.
pub fn highest(xs: &Vec<Binary64>) -> (r: Binary64)
    ensures
        r == peak(xs@),
{
    let mut best = Binary64::zero();
    let mut i: usize = 0;
    while i < xs.len()
        invariant
            i <= xs.len(),
            best == peak(xs@.take(i as int)),
        decreases xs.len() - i,
    {
        proof {
            assert(xs@.take(i + 1).drop_last() =~= xs@.take(i as int));
        }
        if best.is_nan() || xs[i].gt(best) {
            best = xs[i];
        }
        i += 1;
    }
    proof {
        assert(xs@.take(xs.len() as int) =~= xs@);
    }
    best
}

/// The smallest of `1.0` and the numbers.
pub fn lowest(xs: &Vec<Binary64>) -> (r: Binary64)
    ensures
        r == trough(xs@),
{
    let mut best = Binary64::one();
    let mut i: usize = 0;
    while i < xs.len()
        invariant
            i <= xs.len(),
            best == trough(xs@.take(i as int)),
        decreases xs.len() - i,
    {
        proof {
            assert(xs@.take(i + 1).drop_last() =~= xs@.take(i as int));
        }
        if best.is_nan() || xs[i].lt(best) {
            best = xs[i];
        }
        i += 1;
    }
    proof {
        assert(xs@.take(xs.len() as int) =~= xs@);
    }
    best
}

/// The envelope `s` lies within `delta` of `target`.
pub open spec fn has_recovered(s: Binary64, target: Binary64, delta: Binary64) -> bool {
    s.minus(target).magnitude().at_most(delta)
}

/// The first step from `from` on at which the envelope has recovered, or -1
/// where there is none.
pub open spec fn first_recovered(envelope: Seq<Binary64>, target: Binary64, delta: Binary64, from: int)
    -> int
    decreases envelope.len() - from,
{
    if from < 0 || from >= envelope.len() {
        -1
    } else if has_recovered(envelope[from], target, delta) {
        from
    } else {
        first_recovered(envelope, target, delta, from + 1)
    }
}

/// The step at which the envelope has recovered from a disturbance of the
/// given kind: the first step from the kind's search start on at which it
/// lies within `delta` of the kind's recovery target; -1 where the kind has
/// no target or the envelope never gets there.
pub open spec fn recovery_step(
    kind: DisturbanceKind,
    envelope: Seq<Binary64>,
    nominal_bound: Binary64,
    delta: Binary64,
) -> int {
    match (kind.recovery_target_of(nominal_bound), kind.recovery_search_start_of()) {
        (Some(target), Some(start)) => first_recovered(envelope, target, delta, start as int),
        _ => -1,
    }
}

/// The step at which the envelope has recovered, or -1.
pub fn time_to_recover(
    kind: &DisturbanceKind,
    envelope: &Vec<Binary64>,
    nominal_bound: Binary64,
    delta: Binary64,
) -> (r: i64)
    requires
        envelope.len() <= i64::MAX,
    ensures
        r == recovery_step(*kind, envelope@, nominal_bound, delta),
{
    let target = match kind.recovery_target(nominal_bound) {
        Some(target) => target,
        None => return -1,
    };
    let start = match kind.recovery_search_start() {
        Some(start) => start,
        None => return -1,
    };
    let mut n: usize = start;
    while n < envelope.len()
        invariant
            start <= n,
            envelope.len() <= i64::MAX,
            kind.recovery_target_of(nominal_bound) == Some(target),
            kind.recovery_search_start_of() == Some(start),
            first_recovered(envelope@, target, delta, start as int) == first_recovered(
                envelope@,
                target,
                delta,
                n as int,
            ),
        decreases envelope.len() - n,
    {
        if envelope[n].sub_rounded(target).abs().le(delta) {
            return n as i64;
        }
        n += 1;
    }
    -1
}

/// What is kept of the run `run_id` under the draw and the noise given:
/// the columns of the disturbance drawn, the largest envelope and the least
/// trust of the run, and the step at which the envelope has recovered.
pub open spec fn record_of(
    run_id: usize,
    draw: RunDraw,
    config: MonteCarloConfig,
    epsilon: Seq<Binary64>,
) -> MonteCarloRunRecord {
    let envelopes = envelopes_of(config.run_config(draw.kind), draw.s0, draw.kind, epsilon);
    MonteCarloRunRecord {
        run_id,
        regime: draw.kind.regime_of(),
        kind: draw.kind,
        d: draw.kind.columns_of().d,
        b: draw.kind.columns_of().b,
        s: draw.kind.columns_of().s,
        impulse_start: draw.kind.columns_of().impulse_start,
        impulse_len: draw.kind.columns_of().impulse_len,
        s0: draw.s0,
        max_envelope: peak(envelopes),
        min_trust: trough(trusts_of(config.run_config(draw.kind), draw.s0, draw.kind, epsilon)),
        time_to_recover: recovery_step(
            draw.kind,
            envelopes,
            config.epsilon_bound,
            config.recovery_delta,
        ) as i64,
    }
}

/// Why the run under `draw` comes to nothing, if it does.
pub open spec fn record_fault(draw: RunDraw, config: MonteCarloConfig, epsilon: Seq<Binary64>)
    -> Option<SimulationFault> {
    run_fault(config.run_config(draw.kind), draw.s0, draw.kind, epsilon)
}

/// The record of the run `run_id` under the draw and the noise given: the
/// columns of the disturbance drawn, the largest envelope and the least
/// trust of the run, and the step at which the envelope has recovered. A
/// run that comes to nothing gives its fault.
pub fn run_record(
    run_id: usize,
    draw: RunDraw,
    config: &MonteCarloConfig,
    epsilon: &Vec<Binary64>,
) -> (r: Result<MonteCarloRunRecord, SimulationFault>)
    requires
        config.n_steps <= i64::MAX,
    ensures
        match r {
            Ok(record) => {
                &&& record_fault(draw, *config, epsilon@) is None
                &&& record == record_of(run_id, draw, *config, epsilon@)
            },
            Err(e) => record_fault(draw, *config, epsilon@) == Some(e),
        },
{
    let sim_config = SimulationConfig {
        n_steps: config.n_steps,
        rho: config.rho,
        beta: config.beta,
        disturbance_kind: draw.kind,
        epsilon_bound: config.epsilon_bound,
    };
    let result = match run_simulation_with_s0(&sim_config, draw.s0, epsilon) {
        Err(e) => return Err(e),
        Ok(result) => result,
    };
    proof {
        lemma_trace_series(result, sim_config, draw.s0, draw.kind, epsilon@);
    }
    let columns = draw.kind.monte_carlo_columns();
    let record = MonteCarloRunRecord {
        run_id,
        regime: draw.kind.regime(),
        kind: draw.kind,
        d: columns.d,
        b: columns.b,
        s: columns.s,
        impulse_start: columns.impulse_start,
        impulse_len: columns.impulse_len,
        s0: draw.s0,
        max_envelope: highest(&result.s),
        min_trust: lowest(&result.w),
        time_to_recover: time_to_recover(
            &draw.kind,
            &result.s,
            config.epsilon_bound,
            config.recovery_delta,
        ),
    };
    Ok(record)
}

/// The kind of the example impulse: amplitude 1.4 over 7 steps from step
/// 24 on.
pub open spec fn example_impulse_kind() -> DisturbanceKind {
    DisturbanceKind::Impulsive { amplitude: number(EXAMPLE_AMPLITUDE_BITS), start: 24, len: 7 }
}

/// The kind of the example elevation: from 0.05 to 0.65 at step 24.
pub open spec fn example_persistent_kind() -> DisturbanceKind {
    DisturbanceKind::PersistentElevated {
        r_nom: number(EXAMPLE_NOMINAL_BITS),
        r_high: number(EXAMPLE_HIGH_BITS),
        step_time: 24,
    }
}

/// The configuration of an example run: no noise.
pub open spec fn example_config(n_steps: usize, rho: Binary64, beta: Binary64, kind: DisturbanceKind)
    -> SimulationConfig {
    SimulationConfig {
        n_steps,
        rho,
        beta,
        disturbance_kind: kind,
        epsilon_bound: number(ZERO_BITS),
    }
}

/// A run without noise from a zero envelope under the example impulse:
/// its trace, or the fault that the run comes to.
pub fn example_impulse_result(n_steps: usize, rho: Binary64, beta: Binary64) -> (r: Result<
    SimulationResult,
    SimulationFault,
>)
    ensures
        match r {
            Ok(result) => {
                &&& run_fault(
                    example_config(n_steps, rho, beta, example_impulse_kind()),
                    number(ZERO_BITS),
                    example_impulse_kind(),
                    zeros(n_steps as nat),
                ) is None
                &&& is_trace(
                    result,
                    n_steps as nat,
                    example_config(n_steps, rho, beta, example_impulse_kind()),
                    number(ZERO_BITS),
                    example_impulse_kind(),
                    zeros(n_steps as nat),
                )
            },
            Err(e) => run_fault(
                example_config(n_steps, rho, beta, example_impulse_kind()),
                number(ZERO_BITS),
                example_impulse_kind(),
                zeros(n_steps as nat),
            ) == Some(e),
        },
{
    let config = SimulationConfig {
        n_steps,
        rho,
        beta,
        disturbance_kind: DisturbanceKind::Impulsive {
            amplitude: Binary64::from_bits(EXAMPLE_AMPLITUDE_BITS),
            start: 24,
            len: 7,
        },
        epsilon_bound: Binary64::zero(),
    };
    let quiet = zero_vector(n_steps);
    run_simulation_with_s0(&config, Binary64::zero(), &quiet)
}

/// A run without noise from a zero envelope under the example elevation:
/// its trace, or the fault that the run comes to.
pub fn example_persistent_result(n_steps: usize, rho: Binary64, beta: Binary64) -> (r: Result<
    SimulationResult,
    SimulationFault,
>)
    ensures
        match r {
            Ok(result) => {
                &&& run_fault(
                    example_config(n_steps, rho, beta, example_persistent_kind()),
                    number(ZERO_BITS),
                    example_persistent_kind(),
                    zeros(n_steps as nat),
                ) is None
                &&& is_trace(
                    result,
                    n_steps as nat,
                    example_config(n_steps, rho, beta, example_persistent_kind()),
                    number(ZERO_BITS),
                    example_persistent_kind(),
                    zeros(n_steps as nat),
                )
            },
            Err(e) => run_fault(
                example_config(n_steps, rho, beta, example_persistent_kind()),
                number(ZERO_BITS),
                example_persistent_kind(),
                zeros(n_steps as nat),
            ) == Some(e),
        },
{
    let config = SimulationConfig {
        n_steps,
        rho,
        beta,
        disturbance_kind: DisturbanceKind::PersistentElevated {
            r_nom: Binary64::from_bits(EXAMPLE_NOMINAL_BITS),
            r_high: Binary64::from_bits(EXAMPLE_HIGH_BITS),
            step_time: 24,
        },
        epsilon_bound: Binary64::zero(),
    };
    let quiet = zero_vector(n_steps);
    run_simulation_with_s0(&config, Binary64::zero(), &quiet)
}

/// The fault of the first of the first `upto` draws whose run comes to
/// nothing, if there is one.
pub open spec fn first_record_fault(
    draws: Seq<RunDraw>,
    config: MonteCarloConfig,
    epsilon: Seq<Binary64>,
    upto: nat,
) -> Option<SimulationFault>
    decreases upto,
{
    if upto == 0 {
        None
    } else {
        match first_record_fault(draws, config, epsilon, (upto - 1) as nat) {
            Some(e) => Some(e),
            None => record_fault(draws[upto - 1], config, epsilon),
        }
    }
}

/// Why an example run comes to nothing, if it does.
pub open spec fn example_fault(config: MonteCarloConfig, kind: DisturbanceKind) -> Option<
    SimulationFault,
> {
    run_fault(
        example_config(config.n_steps, config.rho, config.beta, kind),
        number(ZERO_BITS),
        kind,
        zeros(config.n_steps as nat),
    )
}

/// Why a batch comes to nothing, if it does: there is not one draw per
/// run; or a run comes to nothing, and then the fault is that of the first
/// such run; or the example impulse does, or else the example elevation.
pub open spec fn batch_fault(config: MonteCarloConfig, draws: Seq<RunDraw>, epsilon: Seq<Binary64>)
    -> Option<SimulationFault> {
    if draws.len() != config.n_runs {
        Some(SimulationFault::CountMismatch { expected: config.n_runs, got: draws.len() as usize })
    } else {
        match first_record_fault(draws, config, epsilon, config.n_runs as nat) {
            Some(e) => Some(e),
            None => match example_fault(config, example_impulse_kind()) {
                Some(e) => Some(e),
                None => example_fault(config, example_persistent_kind()),
            },
        }
    }
}

/// The fault of a run stays the first when more draws are looked at.
pub proof fn lemma_first_record_fault_stays(
    draws: Seq<RunDraw>,
    config: MonteCarloConfig,
    epsilon: Seq<Binary64>,
    at: nat,
    upto: nat,
)
    requires
        at <= upto,
        first_record_fault(draws, config, epsilon, at) is Some,
    ensures
        first_record_fault(draws, config, epsilon, upto) == first_record_fault(
            draws,
            config,
            epsilon,
            at,
        ),
    decreases upto - at,
{
    if at < upto {
        lemma_first_record_fault_stays(draws, config, epsilon, at, (upto - 1) as nat);
    }
}

/// Runs one run per draw, in the order of the draws, and two example runs.
/// The first run that comes to nothing ends the batch.
pub fn run_monte_carlo(config: &MonteCarloConfig, draws: &Vec<RunDraw>, epsilon: &Vec<Binary64>)
    -> (r: Result<MonteCarloBatch, SimulationFault>)
    requires
        config.n_steps <= i64::MAX,
    ensures
        match r {
            Ok(batch) => {
                &&& batch_fault(*config, draws@, epsilon@) is None
                &&& batch.records@.len() == config.n_runs
                &&& forall|i: int|
                    0 <= i < config.n_runs ==> #[trigger] batch.records@[i] == record_of(
                        i as usize,
                        draws@[i],
                        *config,
                        epsilon@,
                    )
                &&& is_trace(
                    batch.example_impulse,
                    config.n_steps as nat,
                    example_config(config.n_steps, config.rho, config.beta, example_impulse_kind()),
                    number(ZERO_BITS),
                    example_impulse_kind(),
                    zeros(config.n_steps as nat),
                )
                &&& is_trace(
                    batch.example_persistent,
                    config.n_steps as nat,
                    example_config(
                        config.n_steps,
                        config.rho,
                        config.beta,
                        example_persistent_kind(),
                    ),
                    number(ZERO_BITS),
                    example_persistent_kind(),
                    zeros(config.n_steps as nat),
                )
            },
            Err(e) => batch_fault(*config, draws@, epsilon@) == Some(e),
        },
{
    if draws.len() != config.n_runs {
        return Err(SimulationFault::CountMismatch { expected: config.n_runs, got: draws.len() });
    }
    let mut records: Vec<MonteCarloRunRecord> = Vec::new();
    let mut run_id: usize = 0;
    while run_id < config.n_runs
        invariant
            run_id <= config.n_runs,
            draws.len() == config.n_runs,
            config.n_steps <= i64::MAX,
            records@.len() == run_id,
            first_record_fault(draws@, *config, epsilon@, run_id as nat) is None,
            forall|i: int|
                0 <= i < run_id ==> #[trigger] records@[i] == record_of(
                    i as usize,
                    draws@[i],
                    *config,
                    epsilon@,
                ),
        decreases config.n_runs - run_id,
    {
        match run_record(run_id, draws[run_id], config, epsilon) {
            Err(e) => {
                proof {
                    assert(first_record_fault(draws@, *config, epsilon@, (run_id + 1) as nat)
                        == Some(e));
                    lemma_first_record_fault_stays(
                        draws@,
                        *config,
                        epsilon@,
                        (run_id + 1) as nat,
                        config.n_runs as nat,
                    );
                }
                return Err(e);
            },
            Ok(record) => {
                records.push(record);
            },
        }
        run_id += 1;
    }
    let example_impulse = match example_impulse_result(config.n_steps, config.rho, config.beta) {
        Err(e) => return Err(e),
        Ok(result) => result,
    };
    let example_persistent = match example_persistent_result(
        config.n_steps,
        config.rho,
        config.beta,
    ) {
        Err(e) => return Err(e),
        Ok(result) => result,
    };
    Ok(MonteCarloBatch { records, example_impulse, example_persistent })
}

/// How many of the records fall under `regime`.
pub open spec fn count_regime(records: Seq<MonteCarloRunRecord>, regime: Regime) -> nat
    decreases records.len(),
{
    if records.len() == 0 {
        0
    } else {
        count_regime(records.drop_last(), regime) + (if records.last().regime == regime {
            1nat
        } else {
            0nat
        })
    }
}

/// No more records fall under a regime than there are records.
pub proof fn lemma_count_regime_bound(records: Seq<MonteCarloRunRecord>, regime: Regime)
    ensures
        count_regime(records, regime) <= records.len(),
    decreases records.len(),
{
    if records.len() > 0 {
        lemma_count_regime_bound(records.drop_last(), regime);
    }
}

/// The largest envelopes of the records.
pub open spec fn max_envelopes(records: Seq<MonteCarloRunRecord>) -> Seq<Binary64> {
    Seq::new(records.len(), |i: int| records[i].max_envelope)
}

/// The smallest trusts of the records.
pub open spec fn min_trusts(records: Seq<MonteCarloRunRecord>) -> Seq<Binary64> {
    Seq::new(records.len(), |i: int| records[i].min_trust)
}

/// Sums a batch up: the mean of the largest envelopes (0 of no records),
/// the smallest trust seen, and the number of runs under each regime.
pub fn summarize_batch(config: &MonteCarloConfig, batch: &MonteCarloBatch) -> (r:
    MonteCarloSummary)
    ensures
        r.n_runs == config.n_runs,
        r.n_steps == config.n_steps,
        r.seed == config.seed,
        r.rho == config.rho,
        r.beta == config.beta,
        r.epsilon_bound == config.epsilon_bound,
        r.recovery_delta == config.recovery_delta,
        r.mean_max_envelope == (if batch.records@.len() == 0 {
            number(ZERO_BITS)
        } else {
            running_sum(max_envelopes(batch.records@)).over(count_number(batch.records@.len()))
        }),
        r.min_observed_trust == trough(min_trusts(batch.records@)),
        r.regime_counts.bounded_nominal == count_regime(batch.records@, Regime::BoundedNominal),
        r.regime_counts.persistent_elevated == count_regime(
            batch.records@,
            Regime::PersistentElevated,
        ),
        r.regime_counts.unbounded == count_regime(batch.records@, Regime::Unbounded),
        r.regime_counts.impulsive == count_regime(batch.records@, Regime::Impulsive),
{
    let ghost envelopes = max_envelopes(batch.records@);
    let ghost trusts = min_trusts(batch.records@);
    let mut counts = RegimeCounts {
        bounded_nominal: 0,
        persistent_elevated: 0,
        unbounded: 0,
        impulsive: 0,
    };
    let mut sum_max_envelope = Binary64::zero();
    let mut min_observed_trust = Binary64::one();
    let mut i: usize = 0;
    while i < batch.records.len()
        invariant
            i <= batch.records.len(),
            envelopes == max_envelopes(batch.records@),
            trusts == min_trusts(batch.records@),
            sum_max_envelope == running_sum(envelopes.take(i as int)),
            min_observed_trust == trough(trusts.take(i as int)),
            counts.bounded_nominal == count_regime(
                batch.records@.take(i as int),
                Regime::BoundedNominal,
            ),
            counts.persistent_elevated == count_regime(
                batch.records@.take(i as int),
                Regime::PersistentElevated,
            ),
            counts.unbounded == count_regime(batch.records@.take(i as int), Regime::Unbounded),
            counts.impulsive == count_regime(batch.records@.take(i as int), Regime::Impulsive),
        decreases batch.records.len() - i,
    {
        proof {
            assert(envelopes.take(i + 1).drop_last() =~= envelopes.take(i as int));
            assert(trusts.take(i + 1).drop_last() =~= trusts.take(i as int));
            assert(batch.records@.take(i + 1).drop_last() =~= batch.records@.take(i as int));
            lemma_count_regime_bound(batch.records@.take(i as int), Regime::BoundedNominal);
            lemma_count_regime_bound(batch.records@.take(i as int), Regime::PersistentElevated);
            lemma_count_regime_bound(batch.records@.take(i as int), Regime::Unbounded);
            lemma_count_regime_bound(batch.records@.take(i as int), Regime::Impulsive);
        }
        let record = batch.records[i];
        sum_max_envelope = sum_max_envelope.add_rounded(record.max_envelope);
        if min_observed_trust.is_nan() || record.min_trust.lt(min_observed_trust) {
            min_observed_trust = record.min_trust;
        }
        match record.regime {
            Regime::BoundedNominal => counts.bounded_nominal += 1,
            Regime::PersistentElevated => counts.persistent_elevated += 1,
            Regime::Unbounded => counts.unbounded += 1,
            Regime::Impulsive => counts.impulsive += 1,
        }
        i += 1;
    }
    proof {
        assert(envelopes.take(batch.records.len() as int) =~= envelopes);
        assert(trusts.take(batch.records.len() as int) =~= trusts);
        assert(batch.records@.take(batch.records.len() as int) =~= batch.records@);
    }
    let mean_max_envelope = if batch.records.len() == 0 {
        Binary64::zero()
    } else {
        sum_max_envelope.div_rounded(Binary64::from_count(batch.records.len()))
    };
    MonteCarloSummary {
        n_runs: config.n_runs,
        n_steps: config.n_steps,
        seed: config.seed,
        rho: config.rho,
        beta: config.beta,
        epsilon_bound: config.epsilon_bound,
        recovery_delta: config.recovery_delta,
        mean_max_envelope,
        min_observed_trust,
        regime_counts: counts,
    }
}

/// The steps of a run as rows.
pub fn trajectory_rows(result: &SimulationResult) -> (r: Vec<TrajectoryRow>)
    requires
        result.wf(),
    ensures
        r@.len() == result.s@.len(),
        forall|n: int|
            0 <= n < r@.len() ==> #[trigger] r@[n] == (TrajectoryRow {
                n: n as usize,
                r: result.r@[n],
                d: result.d@[n],
                s: result.s@[n],
                w: result.w@[n],
            }),
{
    let mut rows: Vec<TrajectoryRow> = Vec::new();
    let mut n: usize = 0;
    while n < result.len()
        invariant
            result.wf(),
            n <= result.s@.len(),
            rows@.len() == n,
            forall|j: int|
                0 <= j < n ==> #[trigger] rows@[j] == (TrajectoryRow {
                    n: j as usize,
                    r: result.r@[j],
                    d: result.d@[j],
                    s: result.s@[j],
                    w: result.w@[j],
                }),
        decreases result.s@.len() - n,
    {
        rows.push(
            TrajectoryRow { n, r: result.r[n], d: result.d[n], s: result.s[n], w: result.w[n] },
        );
        n += 1;
    }
    rows
}

} // verus!
