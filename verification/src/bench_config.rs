//! Configuration of the fusion benchmark.
use vstd::prelude::*;
use crate::binary64::Binary64;
use crate::binary64::number;
use crate::binary64::ONE_BITS;
use crate::binary64::ZERO_BITS;

verus! {

/// What is wrong with a benchmark configuration.
#[derive(Clone, Copy, Debug, PartialEq, Eq, Structural)]
pub enum BenchIssue {
    NoSteps,
    NoState,
    TimeStepNotPositive,
    NoGroups,
    EmptyGroup,
    NoiseLength,
    NoiseNotPositive,
    CorruptionGroupOutOfRange,
    CorruptionChannelOutOfRange,
    CorruptionStartsTooLate,
    NoCorruptionDuration,
    NoIrlsIteration,
    MinimalWeightOutOfRange,
    DsfbBetaOutOfRange,
    BandwidthNegative,
    NoSeeds,
}

impl BenchIssue {
    pub open spec fn text(self) -> Seq<char> {
        match self {
            BenchIssue::NoSteps => "steps must be > 0"@,
            BenchIssue::NoState => "n must be > 0"@,
            BenchIssue::TimeStepNotPositive => "dt must be > 0"@,
            BenchIssue::NoGroups => "group_dims must be non-empty"@,
            BenchIssue::EmptyGroup => "all entries in group_dims must be > 0"@,
            BenchIssue::NoiseLength => "noise_std length must equal group_dims length"@,
            BenchIssue::NoiseNotPositive => "all noise_std entries must be > 0"@,
            BenchIssue::CorruptionGroupOutOfRange => "corruption_group index out of range"@,
            BenchIssue::CorruptionChannelOutOfRange => "corruption_channel index out of range for corruption_group"@,
            BenchIssue::CorruptionStartsTooLate => "corruption_start must be < steps"@,
            BenchIssue::NoCorruptionDuration => "corruption_duration must be > 0"@,
            BenchIssue::NoIrlsIteration => "irls_max_iter must be > 0"@,
            BenchIssue::MinimalWeightOutOfRange => "dsfb_w_min must be in [0, 1]"@,
            BenchIssue::DsfbBetaOutOfRange => "dsfb_beta must be in (0, 1]"@,
            BenchIssue::BandwidthNegative => "bandwidth_tau must be >= 0"@,
            BenchIssue::NoSeeds => "seeds must be non-empty"@,
        }
    }

    /// The issue in words.
    pub fn message(self) -> (r: &'static str)
        ensures
            r@ == self.text(),
    {
        match self {
            BenchIssue::NoSteps => "steps must be > 0",
            BenchIssue::NoState => "n must be > 0",
            BenchIssue::TimeStepNotPositive => "dt must be > 0",
            BenchIssue::NoGroups => "group_dims must be non-empty",
            BenchIssue::EmptyGroup => "all entries in group_dims must be > 0",
            BenchIssue::NoiseLength => "noise_std length must equal group_dims length",
            BenchIssue::NoiseNotPositive => "all noise_std entries must be > 0",
            BenchIssue::CorruptionGroupOutOfRange => "corruption_group index out of range",
            BenchIssue::CorruptionChannelOutOfRange => "corruption_channel index out of range for corruption_group",
            BenchIssue::CorruptionStartsTooLate => "corruption_start must be < steps",
            BenchIssue::NoCorruptionDuration => "corruption_duration must be > 0",
            BenchIssue::NoIrlsIteration => "irls_max_iter must be > 0",
            BenchIssue::MinimalWeightOutOfRange => "dsfb_w_min must be in [0, 1]",
            BenchIssue::DsfbBetaOutOfRange => "dsfb_beta must be in (0, 1]",
            BenchIssue::BandwidthNegative => "bandwidth_tau must be >= 0",
            BenchIssue::NoSeeds => "seeds must be non-empty",
        }
    }
}

/// What a benchmark is made of.
#[derive(Debug)]
pub struct BenchConfig {
    pub schema_version: String,
    pub steps: usize,
    pub dt: Binary64,
    pub n: usize,
    pub group_dims: Vec<usize>,
    pub noise_std: Vec<Binary64>,
    pub process_noise_std: Binary64,
    pub bandwidth_groups: Vec<usize>,
    pub bandwidth_tau: Binary64,
    pub corruption_group: usize,
    pub corruption_channel: usize,
    pub corruption_start: usize,
    pub corruption_duration: usize,
    pub corruption_amplitude: Binary64,
    pub cov_inflate_factor: Binary64,
    pub nis_threshold: Binary64,
    pub nis_soft_scale: Binary64,
    pub irls_delta: Binary64,
    pub irls_max_iter: usize,
    pub irls_tol: Binary64,
    pub dsfb_alpha: Binary64,
    pub dsfb_beta: Binary64,
    pub dsfb_w_min: Binary64,
    pub matrix_seed: u64,
    pub seeds: Vec<u64>,
    pub methods: Vec<String>,
    pub alpha_values: Option<Vec<Binary64>>,
    pub beta_values: Option<Vec<Binary64>>,
}

/// Sum of the numbers.
pub open spec fn total(xs: Seq<usize>) -> nat
    decreases xs.len(),
{
    if xs.len() == 0 {
        0
    } else {
        total(xs.drop_last()) + xs.last() as nat
    }
}

impl BenchConfig {
    /// What is wrong with the configuration, if anything. The checks come
    /// in the order of `BenchIssue` and the first that fails decides. A
    /// comparison with a NaN never fails a check but that of `dsfb_w_min`.
    pub open spec fn issue(&self) -> Option<BenchIssue> {
        let zero = number(ZERO_BITS);
        let one = number(ONE_BITS);
        if self.steps == 0 {
            Some(BenchIssue::NoSteps)
        } else if self.n == 0 {
            Some(BenchIssue::NoState)
        } else if self.dt.at_most(zero) {
            Some(BenchIssue::TimeStepNotPositive)
        } else if self.group_dims@.len() == 0 {
            Some(BenchIssue::NoGroups)
        } else if exists|i: int| 0 <= i < self.group_dims@.len() && #[trigger] self.group_dims@[i] == 0 {
            Some(BenchIssue::EmptyGroup)
        } else if self.noise_std@.len() != self.group_dims@.len() {
            Some(BenchIssue::NoiseLength)
        } else if exists|i: int|
            0 <= i < self.noise_std@.len() && (#[trigger] self.noise_std@[i]).at_most(zero) {
            Some(BenchIssue::NoiseNotPositive)
        } else if self.corruption_group >= self.group_dims@.len() {
            Some(BenchIssue::CorruptionGroupOutOfRange)
        } else if self.corruption_channel >= self.group_dims@[self.corruption_group as int] {
            Some(BenchIssue::CorruptionChannelOutOfRange)
        } else if self.corruption_start >= self.steps {
            Some(BenchIssue::CorruptionStartsTooLate)
        } else if self.corruption_duration == 0 {
            Some(BenchIssue::NoCorruptionDuration)
        } else if self.irls_max_iter == 0 {
            Some(BenchIssue::NoIrlsIteration)
        } else if !(self.dsfb_w_min.at_least(zero) && self.dsfb_w_min.at_most(one)) {
            Some(BenchIssue::MinimalWeightOutOfRange)
        } else if self.dsfb_beta.at_most(zero) || self.dsfb_beta.exceeds(one) {
            Some(BenchIssue::DsfbBetaOutOfRange)
        } else if self.bandwidth_tau.below(zero) {
            Some(BenchIssue::BandwidthNegative)
        } else if self.seeds@.len() == 0 {
            Some(BenchIssue::NoSeeds)
        } else {
            None
        }
    }

    /// Checks the configuration.
    pub fn validate(&self) -> (r: Result<(), BenchIssue>)
        ensures
            r == (match self.issue() {
                Some(issue) => Err(issue),
                None => Ok(()),
            }),
    {
        let zero = Binary64::zero();
        let one = Binary64::one();
        if self.steps == 0 {
            return Err(BenchIssue::NoSteps);
        }
        if self.n == 0 {
            return Err(BenchIssue::NoState);
        }
        if self.dt.le(zero) {
            return Err(BenchIssue::TimeStepNotPositive);
        }
        if self.group_dims.len() == 0 {
            return Err(BenchIssue::NoGroups);
        }
        let mut i: usize = 0;
        while i < self.group_dims.len()
            invariant
                i <= self.group_dims.len(),
                self.steps != 0,
                self.n != 0,
                !self.dt.at_most(number(ZERO_BITS)),
                self.group_dims@.len() != 0,
                forall|j: int| 0 <= j < i ==> #[trigger] self.group_dims@[j] != 0,
            decreases self.group_dims.len() - i,
        {
            if self.group_dims[i] == 0 {
                assert(self.group_dims@[i as int] == 0);
                return Err(BenchIssue::EmptyGroup);
            }
            i += 1;
        }
        if self.noise_std.len() != self.group_dims.len() {
            return Err(BenchIssue::NoiseLength);
        }
        let mut i: usize = 0;
        while i < self.noise_std.len()
            invariant
                i <= self.noise_std.len(),
                zero == number(ZERO_BITS),
                self.steps != 0,
                self.n != 0,
                !self.dt.at_most(number(ZERO_BITS)),
                self.group_dims@.len() != 0,
                forall|j: int| 0 <= j < self.group_dims@.len() ==> #[trigger] self.group_dims@[j] != 0,
                self.noise_std@.len() == self.group_dims@.len(),
                forall|j: int| 0 <= j < i ==> !(#[trigger] self.noise_std@[j]).at_most(zero),
            decreases self.noise_std.len() - i,
        {
            if self.noise_std[i].le(zero) {
                assert(self.noise_std@[i as int].at_most(zero));
                return Err(BenchIssue::NoiseNotPositive);
            }
            i += 1;
        }
        if self.corruption_group >= self.group_dims.len() {
            return Err(BenchIssue::CorruptionGroupOutOfRange);
        }
        if self.corruption_channel >= self.group_dims[self.corruption_group] {
            return Err(BenchIssue::CorruptionChannelOutOfRange);
        }
        if self.corruption_start >= self.steps {
            return Err(BenchIssue::CorruptionStartsTooLate);
        }
        if self.corruption_duration == 0 {
            return Err(BenchIssue::NoCorruptionDuration);
        }
        if self.irls_max_iter == 0 {
            return Err(BenchIssue::NoIrlsIteration);
        }
        if !(self.dsfb_w_min.ge(zero) && self.dsfb_w_min.le(one)) {
            return Err(BenchIssue::MinimalWeightOutOfRange);
        }
        if self.dsfb_beta.le(zero) || self.dsfb_beta.gt(one) {
            return Err(BenchIssue::DsfbBetaOutOfRange);
        }
        if self.bandwidth_tau.lt(zero) {
            return Err(BenchIssue::BandwidthNegative);
        }
        if self.seeds.len() == 0 {
            return Err(BenchIssue::NoSeeds);
        }
        Ok(())
    }

    /// The number of measurements over all groups, or `None` where it does
    /// not fit the machine word.
    pub fn total_measurements(&self) -> (r: Option<usize>)
        ensures
            match r {
                Some(sum) => sum == total(self.group_dims@),
                None => total(self.group_dims@) > usize::MAX,
            },
    {
        let mut sum: usize = 0;
        let mut i: usize = 0;
        assert(self.group_dims@.take(0) =~= Seq::<usize>::empty());
        while i < self.group_dims.len()
            invariant
                i <= self.group_dims.len(),
                sum == total(self.group_dims@.take(i as int)),
            decreases self.group_dims.len() - i,
        {
            proof {
                assert(self.group_dims@.take(i + 1).drop_last() =~= self.group_dims@.take(i as int));
            }
            if self.group_dims[i] > usize::MAX - sum {
                proof {
                    lemma_total_grows(self.group_dims@, (i + 1) as int);
                }
                return None;
            }
            sum = sum + self.group_dims[i];
            i += 1;
        }
        assert(self.group_dims@.take(self.group_dims.len() as int) =~= self.group_dims@);
        Some(sum)
    }

    /// The number of groups.
    pub fn group_count(&self) -> (r: usize)
        ensures
            r == self.group_dims@.len(),
    {
        self.group_dims.len()
    }

    /// Whether the corruption acts at `step`.
    pub open spec fn corrupts(&self, step: usize) -> bool {
        self.corruption_start <= step < self.corruption_start + self.corruption_duration
    }

    /// Whether the corruption acts at `step`.
    pub fn corruption_active(&self, step: usize) -> (r: bool)
        ensures
            r == self.corrupts(step),
    {
        step >= self.corruption_start && step - self.corruption_start < self.corruption_duration
    }
}

/// The sum of a beginning is no more than the sum of the whole.
pub proof fn lemma_total_grows(xs: Seq<usize>, upto: int)
    requires
        0 <= upto <= xs.len(),
    ensures
        total(xs.take(upto)) <= total(xs),
    decreases xs.len() - upto,
{
    if upto < xs.len() {
        lemma_total_grows(xs, upto + 1);
        assert(xs.take(upto + 1).drop_last() =~= xs.take(upto));
    } else {
        assert(xs.take(upto) =~= xs);
    }
}

} // verus!
