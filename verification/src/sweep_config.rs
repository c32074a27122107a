//! Configuration of a sweep over the parameter `lambda`.
use vstd::prelude::*;
use crate::binary64::Binary64;
use crate::binary64::count_number;
use crate::binary64::number;
use crate::binary64::ONE_BITS;
use crate::binary64::ZERO_BITS;
use crate::disturbances::clamp;
use crate::disturbances::held_between;

verus! {

/// Pattern of `2^-52`, the distance from 1 to the next number.
pub const EPSILON_BITS: u64 = 0x3CB0_0000_0000_0000;

/// Pattern of `0.5`.
pub const HALF_BITS: u64 = 0x3FE0_0000_0000_0000;

/// What is wrong with a sweep configuration.
#[derive(Clone, Copy, Debug, PartialEq, Eq, Structural)]
pub enum ConfigIssue {
    /// `num_lambda` is zero.
    NoLambda,
    /// `steps_per_run` is zero.
    NoSteps,
    /// `multi_steps_per_run` holds a zero.
    ZeroAmongMultiSteps,
    /// `lambda_min` or `lambda_max` is infinite or NaN.
    LambdaNotFinite,
    /// `lambda_max` lies below `lambda_min`.
    LambdaOrder,
    /// No sub-theory is enabled.
    NothingEnabled,
}

impl ConfigIssue {
    pub open spec fn text(self) -> Seq<char> {
        match self {
            ConfigIssue::NoLambda => "num_lambda must be greater than zero"@,
            ConfigIssue::NoSteps => "steps_per_run must be greater than zero"@,
            ConfigIssue::ZeroAmongMultiSteps => "multi_steps_per_run must contain only values greater than zero"@,
            ConfigIssue::LambdaNotFinite => "lambda_min and lambda_max must be finite"@,
            ConfigIssue::LambdaOrder => "lambda_max must be greater than or equal to lambda_min"@,
            ConfigIssue::NothingEnabled => "at least one sub-theory must be enabled"@,
        }
    }

    /// The issue in words.
    pub fn message(self) -> (r: &'static str)
        ensures
            r@ == self.text(),
    {
        match self {
            ConfigIssue::NoLambda => "num_lambda must be greater than zero",
            ConfigIssue::NoSteps => "steps_per_run must be greater than zero",
            ConfigIssue::ZeroAmongMultiSteps => "multi_steps_per_run must contain only values greater than zero",
            ConfigIssue::LambdaNotFinite => "lambda_min and lambda_max must be finite",
            ConfigIssue::LambdaOrder => "lambda_max must be greater than or equal to lambda_min",
            ConfigIssue::NothingEnabled => "at least one sub-theory must be enabled",
        }
    }
}

/// Why a sweep came to nothing.
#[derive(Clone, Copy, Debug)]
pub enum AddError {
    InvalidConfig(ConfigIssue),
    LengthMismatch { context: &'static str, expected: usize, got: usize },
}

/// A series must have the expected length.
pub fn ensure_len(context: &'static str, expected: usize, actual: usize) -> (r: Result<
    (),
    AddError,
>)
    ensures
        expected == actual ==> r is Ok,
        expected != actual ==> (r matches Err(
            AddError::LengthMismatch { context: named, expected: wanted, got },
        ) && named == context && wanted == expected && got == actual),
{
    if expected == actual {
        return Ok(());
    }
    Err(AddError::LengthMismatch { context, expected, got: actual })
}

/// What a sweep is made of.
#[derive(Debug)]
pub struct SimulationConfig {
    pub num_lambda: usize,
    pub lambda_min: Binary64,
    pub lambda_max: Binary64,
    pub steps_per_run: usize,
    pub multi_steps_per_run: Vec<usize>,
    pub random_seed: u64,
    pub enable_aet: bool,
    pub enable_tcp: bool,
    pub enable_rlt: bool,
    pub enable_iwlt: bool,
}

impl SimulationConfig {
    /// What is wrong with the configuration, if anything; the first defect
    /// in the order of `ConfigIssue` decides.
    pub open spec fn issue(&self) -> Option<ConfigIssue> {
        if self.num_lambda == 0 {
            Some(ConfigIssue::NoLambda)
        } else if self.steps_per_run == 0 {
            Some(ConfigIssue::NoSteps)
        } else if exists|i: int|
            0 <= i < self.multi_steps_per_run@.len() && #[trigger] self.multi_steps_per_run@[i]
                == 0 {
            Some(ConfigIssue::ZeroAmongMultiSteps)
        } else if !self.lambda_min.is_finite_spec() || !self.lambda_max.is_finite_spec() {
            Some(ConfigIssue::LambdaNotFinite)
        } else if self.lambda_max.below(self.lambda_min) {
            Some(ConfigIssue::LambdaOrder)
        } else if !(self.enable_aet || self.enable_tcp || self.enable_rlt || self.enable_iwlt) {
            Some(ConfigIssue::NothingEnabled)
        } else {
            None
        }
    }

    /// Checks the configuration.
    pub fn validate(&self) -> (r: Result<(), AddError>)
        ensures
            match self.issue() {
                Some(issue) => (r matches Err(AddError::InvalidConfig(found)) && found == issue),
                None => r is Ok,
            },
    {
        if self.num_lambda == 0 {
            return Err(AddError::InvalidConfig(ConfigIssue::NoLambda));
        }
        if self.steps_per_run == 0 {
            return Err(AddError::InvalidConfig(ConfigIssue::NoSteps));
        }
        let mut i: usize = 0;
        while i < self.multi_steps_per_run.len()
            invariant
                i <= self.multi_steps_per_run.len(),
                self.num_lambda != 0,
                self.steps_per_run != 0,
                forall|j: int| 0 <= j < i ==> #[trigger] self.multi_steps_per_run@[j] != 0,
            decreases self.multi_steps_per_run.len() - i,
        {
            if self.multi_steps_per_run[i] == 0 {
                assert(self.multi_steps_per_run@[i as int] == 0);
                return Err(AddError::InvalidConfig(ConfigIssue::ZeroAmongMultiSteps));
            }
            i += 1;
        }
        if !self.lambda_min.is_finite() || !self.lambda_max.is_finite() {
            return Err(AddError::InvalidConfig(ConfigIssue::LambdaNotFinite));
        }
        if self.lambda_max.lt(self.lambda_min) {
            return Err(AddError::InvalidConfig(ConfigIssue::LambdaOrder));
        }
        if !(self.enable_aet || self.enable_tcp || self.enable_rlt || self.enable_iwlt) {
            return Err(AddError::InvalidConfig(ConfigIssue::NothingEnabled));
        }
        Ok(())
    }

    /// The value of `lambda` at grid index `idx`:
    /// `lambda_min + span * idx / (num_lambda - 1)`.
    pub open spec fn lambda_at(&self, idx: int) -> Binary64 {
        self.lambda_min.plus(
            self.lambda_max.minus(self.lambda_min).times(count_number(idx as nat)).over(
                count_number((self.num_lambda - 1) as nat),
            ),
        )
    }

    /// The grid of `lambda`: `num_lambda` values from `lambda_min` to
    /// `lambda_max`; `lambda_min` alone where only one is asked for.
    pub open spec fn grid(&self) -> Seq<Binary64> {
        if self.num_lambda == 1 {
            seq![self.lambda_min]
        } else {
            Seq::new(self.num_lambda as nat, |idx: int| self.lambda_at(idx))
        }
    }

    pub fn lambda_grid(&self) -> (r: Vec<Binary64>)
        requires
            self.num_lambda > 0,
        ensures
            r@ == self.grid(),
    {
        let mut out: Vec<Binary64> = Vec::new();
        if self.num_lambda == 1 {
            out.push(self.lambda_min);
            assert(out@ =~= self.grid());
            return out;
        }
        let span = self.lambda_max.sub_rounded(self.lambda_min);
        let denom = Binary64::from_count(self.num_lambda - 1);
        let mut idx: usize = 0;
        while idx < self.num_lambda
            invariant
                idx <= self.num_lambda,
                self.num_lambda > 1,
                span == self.lambda_max.minus(self.lambda_min),
                denom == count_number((self.num_lambda - 1) as nat),
                out@.len() == idx,
                forall|j: int| 0 <= j < idx ==> out@[j] == self.lambda_at(j),
            decreases self.num_lambda - idx,
        {
            out.push(
                self.lambda_min.add_rounded(
                    span.mul_rounded(Binary64::from_count(idx)).div_rounded(denom),
                ),
            );
            idx += 1;
        }
        assert(out@ =~= self.grid());
        out
    }

    /// Where `lambda` lies between `lambda_min` and `lambda_max`, from 0 to
    /// 1; 0.5 where the two are less than `2^-52` apart.
    pub open spec fn normalized(&self, lambda: Binary64) -> Binary64 {
        let span = self.lambda_max.minus(self.lambda_min);
        if span.magnitude().below(number(EPSILON_BITS)) {
            number(HALF_BITS)
        } else {
            held_between(
                lambda.minus(self.lambda_min).over(span),
                number(ZERO_BITS),
                number(ONE_BITS),
            )
        }
    }

    pub fn normalized_lambda(&self, lambda: Binary64) -> (r: Binary64)
        ensures
            r == self.normalized(lambda),
    {
        let span = self.lambda_max.sub_rounded(self.lambda_min);
        if span.abs().lt(Binary64::from_bits(EPSILON_BITS)) {
            return Binary64::from_bits(HALF_BITS);
        }
        clamp(
            lambda.sub_rounded(self.lambda_min).div_rounded(span),
            Binary64::zero(),
            Binary64::one(),
        )
    }

    /// The step counts to sweep over: `multi_steps_per_run`, or
    /// `steps_per_run` alone where that is empty.
    pub fn sweep_steps(&self) -> (r: Vec<usize>)
        ensures
            r@ == (if self.multi_steps_per_run@.len() == 0 {
                seq![self.steps_per_run]
            } else {
                self.multi_steps_per_run@
            }),
    {
        let mut out: Vec<usize> = Vec::new();
        if self.multi_steps_per_run.len() == 0 {
            out.push(self.steps_per_run);
            assert(out@ =~= seq![self.steps_per_run]);
            return out;
        }
        let mut i: usize = 0;
        while i < self.multi_steps_per_run.len()
            invariant
                i <= self.multi_steps_per_run.len(),
                out@ == self.multi_steps_per_run@.take(i as int),
            decreases self.multi_steps_per_run.len() - i,
        {
            out.push(self.multi_steps_per_run[i]);
            assert(out@ =~= self.multi_steps_per_run@.take(i + 1));
            i += 1;
        }
        assert(self.multi_steps_per_run@.take(self.multi_steps_per_run.len() as int)
            =~= self.multi_steps_per_run@);
        out
    }
}

impl Default for SimulationConfig {
    /// 360 values of `lambda` from 0 to 1, 512 steps per run, every
    /// sub-theory enabled.
    fn default() -> (r: SimulationConfig)
        ensures
            r.num_lambda == 360,
            r.lambda_min == number(ZERO_BITS),
            r.lambda_max == number(ONE_BITS),
            r.steps_per_run == 512,
            r.multi_steps_per_run@.len() == 0,
            r.random_seed == 0xADD2_0260_0001,
            r.enable_aet && r.enable_tcp && r.enable_rlt && r.enable_iwlt,
            r.issue() is None,
    {
        SimulationConfig {
            num_lambda: 360,
            lambda_min: Binary64::zero(),
            lambda_max: Binary64::one(),
            steps_per_run: 512,
            multi_steps_per_run: Vec::new(),
            random_seed: 0xADD2_0260_0001,
            enable_aet: true,
            enable_tcp: true,
            enable_rlt: true,
            enable_iwlt: true,
        }
    }
}

} // verus!
