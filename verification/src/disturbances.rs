//! Disturbances that act on a residual: bounded, drifting, slewing,
//! impulsive and persistently elevated ones.
use vstd::prelude::*;
use crate::binary64::Binary64;
use crate::binary64::count_number;
use crate::binary64::number;
use crate::binary64::ONE_BITS;
use crate::binary64::ZERO_BITS;

verus! {

/// Pattern of `0.15`: up to this magnitude a pointwise bounded disturbance
/// counts as nominal.
pub const NOMINAL_LIMIT_BITS: u64 = 0x3FC3_3333_3333_3333;

/// Pattern of `0.03`: growth of the disturbance scale per channel key.
pub const CHANNEL_SCALE_STEP_BITS: u64 = 0x3F9E_B851_EB85_1EB8;

/// `a + b`, held at `usize::MAX`.
pub open spec fn capped_sum(a: usize, b: usize) -> usize {
    if a + b > usize::MAX {
        usize::MAX
    } else {
        (a + b) as usize
    }
}

/// `a + b`, held at `usize::MAX`.
pub fn saturating_sum(a: usize, b: usize) -> (r: usize)
    ensures
        r == capped_sum(a, b),
{
    if b > usize::MAX - a {
        usize::MAX
    } else {
        a + b
    }
}

/// `x` held to `[low, high]`; a NaN stays a NaN.
pub open spec fn held_between(x: Binary64, low: Binary64, high: Binary64) -> Binary64 {
    if x.below(low) {
        low
    } else if x.exceeds(high) {
        high
    } else {
        x
    }
}

/// Holds `x` to `[low, high]`.
pub fn clamp(x: Binary64, low: Binary64, high: Binary64) -> (r: Binary64)
    requires
        low.at_most(high),
    ensures
        r == held_between(x, low, high),
{
    if x.lt(low) {
        low
    } else if x.gt(high) {
        high
    } else {
        x
    }
}

/// What kind of disturbance acts, with its parameters.
#[derive(Clone, Copy, Debug)]
pub enum DisturbanceKind {
    /// The constant `d`.
    PointwiseBounded { d: Binary64 },
    /// `b * n`, held to `[-s_max, s_max]`.
    Drift { b: Binary64, s_max: Binary64 },
    /// A value that grows by `s_max` with every step.
    SlewRateBounded { s_max: Binary64 },
    /// `amplitude` over `len` steps from `start` on, zero otherwise.
    Impulsive { amplitude: Binary64, start: usize, len: usize },
    /// `r_nom` before `step_time`, `r_high` from then on.
    PersistentElevated { r_nom: Binary64, r_high: Binary64, step_time: usize },
}

/// The regime that a disturbance is counted under.
#[derive(Clone, Copy, Debug, PartialEq, Eq, Structural)]
pub enum Regime {
    BoundedNominal,
    PersistentElevated,
    Unbounded,
    Impulsive,
}

impl Regime {
    pub open spec fn label_text(self) -> Seq<char> {
        match self {
            Regime::BoundedNominal => "bounded_nominal"@,
            Regime::PersistentElevated => "persistent_elevated"@,
            Regime::Unbounded => "unbounded"@,
            Regime::Impulsive => "impulsive"@,
        }
    }

    pub fn label(self) -> (r: &'static str)
        ensures
            r@ == self.label_text(),
    {
        match self {
            Regime::BoundedNominal => "bounded_nominal",
            Regime::PersistentElevated => "persistent_elevated",
            Regime::Unbounded => "unbounded",
            Regime::Impulsive => "impulsive",
        }
    }
}

/// What `monte_carlo_columns` reports of a disturbance.
#[derive(Clone, Copy, Debug)]
pub struct DisturbanceColumns {
    pub d: Binary64,
    pub b: Binary64,
    pub s: Binary64,
    pub impulse_start: usize,
    pub impulse_len: usize,
}

/// A magnitude counts as nominal up to `0.15`.
pub open spec fn is_nominal(d: Binary64) -> bool {
    d.magnitude().at_most(number(NOMINAL_LIMIT_BITS))
}

/// The disturbance scale of the channel with the given key,
/// `1 + 0.03 * key`.
pub open spec fn channel_scale(key: usize) -> Binary64 {
    number(ONE_BITS).plus(number(CHANNEL_SCALE_STEP_BITS).times(count_number(key as nat)))
}

impl DisturbanceKind {
    pub open spec fn type_text(self) -> Seq<char> {
        match self {
            DisturbanceKind::PointwiseBounded { .. } => "pointwise_bounded"@,
            DisturbanceKind::Drift { .. } => "drift"@,
            DisturbanceKind::SlewRateBounded { .. } => "slew_rate_bounded"@,
            DisturbanceKind::Impulsive { .. } => "impulsive"@,
            DisturbanceKind::PersistentElevated { .. } => "persistent_elevated"@,
        }
    }

    /// The name of the kind.
    pub fn disturbance_type(&self) -> (r: &'static str)
        ensures
            r@ == self.type_text(),
    {
        match self {
            DisturbanceKind::PointwiseBounded { .. } => "pointwise_bounded",
            DisturbanceKind::Drift { .. } => "drift",
            DisturbanceKind::SlewRateBounded { .. } => "slew_rate_bounded",
            DisturbanceKind::Impulsive { .. } => "impulsive",
            DisturbanceKind::PersistentElevated { .. } => "persistent_elevated",
        }
    }

    /// The regime of the kind: a pointwise bounded disturbance is nominal
    /// up to a magnitude of 0.15 and elevated above; slewing is unbounded.
    pub open spec fn regime_of(self) -> Regime {
        match self {
            DisturbanceKind::PointwiseBounded { d } => if is_nominal(d) {
                Regime::BoundedNominal
            } else {
                Regime::PersistentElevated
            },
            DisturbanceKind::Drift { .. } => Regime::PersistentElevated,
            DisturbanceKind::SlewRateBounded { .. } => Regime::Unbounded,
            DisturbanceKind::Impulsive { .. } => Regime::Impulsive,
            DisturbanceKind::PersistentElevated { .. } => Regime::PersistentElevated,
        }
    }

    pub fn regime(&self) -> (r: Regime)
        ensures
            r == self.regime_of(),
    {
        match self {
            DisturbanceKind::PointwiseBounded { d } => {
                if d.abs().le(Binary64::from_bits(NOMINAL_LIMIT_BITS)) {
                    Regime::BoundedNominal
                } else {
                    Regime::PersistentElevated
                }
            },
            DisturbanceKind::Drift { .. } => Regime::PersistentElevated,
            DisturbanceKind::SlewRateBounded { .. } => Regime::Unbounded,
            DisturbanceKind::Impulsive { .. } => Regime::Impulsive,
            DisturbanceKind::PersistentElevated { .. } => Regime::PersistentElevated,
        }
    }

    /// The label of the kind's regime.
    pub fn regime_label(&self) -> (r: &'static str)
        ensures
            r@ == self.regime_of().label_text(),
    {
        self.regime().label()
    }

    /// The envelope level that counts as recovered: the magnitude of a
    /// nominal pointwise disturbance, the nominal bound after an impulse,
    /// none otherwise.
    pub open spec fn recovery_target_of(self, nominal_bound: Binary64) -> Option<Binary64> {
        match self {
            DisturbanceKind::PointwiseBounded { d } => if is_nominal(d) {
                Some(d.magnitude())
            } else {
                None
            },
            DisturbanceKind::Impulsive { .. } => Some(nominal_bound.magnitude()),
            _ => None,
        }
    }

    pub fn recovery_target(&self, nominal_bound: Binary64) -> (r: Option<Binary64>)
        ensures
            r == self.recovery_target_of(nominal_bound),
    {
        match self {
            DisturbanceKind::PointwiseBounded { d } => {
                if d.abs().le(Binary64::from_bits(NOMINAL_LIMIT_BITS)) {
                    Some(d.abs())
                } else {
                    None
                }
            },
            DisturbanceKind::Impulsive { .. } => Some(nominal_bound.abs()),
            _ => None,
        }
    }

    /// The step from which recovery is looked for: the start for a nominal
    /// pointwise disturbance, the end of an impulse, none otherwise.
    pub open spec fn recovery_search_start_of(self) -> Option<usize> {
        match self {
            DisturbanceKind::PointwiseBounded { d } => if is_nominal(d) {
                Some(0usize)
            } else {
                None
            },
            DisturbanceKind::Impulsive { start, len, .. } => Some(capped_sum(start, len)),
            _ => None,
        }
    }

    pub fn recovery_search_start(&self) -> (r: Option<usize>)
        ensures
            r == self.recovery_search_start_of(),
    {
        match self {
            DisturbanceKind::PointwiseBounded { d } => {
                if d.abs().le(Binary64::from_bits(NOMINAL_LIMIT_BITS)) {
                    Some(0)
                } else {
                    None
                }
            },
            DisturbanceKind::Impulsive { start, len, .. } => Some(saturating_sum(*start, *len)),
            _ => None,
        }
    }

    pub open spec fn columns_of(self) -> DisturbanceColumns {
        let zero = number(ZERO_BITS);
        match self {
            DisturbanceKind::PointwiseBounded { d } => DisturbanceColumns {
                d: d.magnitude(),
                b: zero,
                s: zero,
                impulse_start: 0,
                impulse_len: 0,
            },
            DisturbanceKind::Drift { b, s_max } => DisturbanceColumns {
                d: zero,
                b,
                s: s_max,
                impulse_start: 0,
                impulse_len: 0,
            },
            DisturbanceKind::SlewRateBounded { s_max } => DisturbanceColumns {
                d: zero,
                b: zero,
                s: s_max,
                impulse_start: 0,
                impulse_len: 0,
            },
            DisturbanceKind::Impulsive { amplitude, start, len } => DisturbanceColumns {
                d: amplitude.magnitude(),
                b: zero,
                s: zero,
                impulse_start: start,
                impulse_len: len,
            },
            DisturbanceKind::PersistentElevated { r_nom, r_high, step_time } => DisturbanceColumns {
                d: r_high.magnitude(),
                b: r_nom,
                s: zero,
                impulse_start: step_time,
                impulse_len: 0,
            },
        }
    }

    /// The parameters of the kind as the columns of a run record.
    pub fn monte_carlo_columns(&self) -> (r: DisturbanceColumns)
        ensures
            r == self.columns_of(),
    {
        let zero = Binary64::zero();
        match self {
            DisturbanceKind::PointwiseBounded { d } => DisturbanceColumns {
                d: d.abs(),
                b: zero,
                s: zero,
                impulse_start: 0,
                impulse_len: 0,
            },
            DisturbanceKind::Drift { b, s_max } => DisturbanceColumns {
                d: zero,
                b: *b,
                s: *s_max,
                impulse_start: 0,
                impulse_len: 0,
            },
            DisturbanceKind::SlewRateBounded { s_max } => DisturbanceColumns {
                d: zero,
                b: zero,
                s: *s_max,
                impulse_start: 0,
                impulse_len: 0,
            },
            DisturbanceKind::Impulsive { amplitude, start, len } => DisturbanceColumns {
                d: amplitude.abs(),
                b: zero,
                s: zero,
                impulse_start: *start,
                impulse_len: *len,
            },
            DisturbanceKind::PersistentElevated { r_nom, r_high, step_time } => DisturbanceColumns {
                d: r_high.abs(),
                b: *r_nom,
                s: zero,
                impulse_start: *step_time,
                impulse_len: 0,
            },
        }
    }

    /// The kind as the channel with the given key sees it: every magnitude
    /// scaled by `1 + 0.03 * key`, an impulse delayed by `key % 3` steps, an
    /// elevation by `key % 4` steps.
    pub open spec fn channelized_as(self, key: usize) -> DisturbanceKind {
        let scale = channel_scale(key);
        match self {
            DisturbanceKind::PointwiseBounded { d } => DisturbanceKind::PointwiseBounded {
                d: d.times(scale),
            },
            DisturbanceKind::Drift { b, s_max } => DisturbanceKind::Drift {
                b: b.times(scale),
                s_max: s_max.times(scale),
            },
            DisturbanceKind::SlewRateBounded { s_max } => DisturbanceKind::SlewRateBounded {
                s_max: s_max.times(scale),
            },
            DisturbanceKind::Impulsive { amplitude, start, len } => DisturbanceKind::Impulsive {
                amplitude: amplitude.times(scale),
                start: capped_sum(start, (key % 3) as usize),
                len,
            },
            DisturbanceKind::PersistentElevated { r_nom, r_high, step_time } => {
                DisturbanceKind::PersistentElevated {
                    r_nom: r_nom.times(scale),
                    r_high: r_high.times(scale),
                    step_time: capped_sum(step_time, (key % 4) as usize),
                }
            },
        }
    }

    pub fn channelized(&self, key: usize) -> (r: DisturbanceKind)
        ensures
            r == self.channelized_as(key),
    {
        let scale = Binary64::one().add_rounded(
            Binary64::from_bits(CHANNEL_SCALE_STEP_BITS).mul_rounded(Binary64::from_count(key)),
        );
        match self {
            DisturbanceKind::PointwiseBounded { d } => DisturbanceKind::PointwiseBounded {
                d: d.mul_rounded(scale),
            },
            DisturbanceKind::Drift { b, s_max } => DisturbanceKind::Drift {
                b: b.mul_rounded(scale),
                s_max: s_max.mul_rounded(scale),
            },
            DisturbanceKind::SlewRateBounded { s_max } => DisturbanceKind::SlewRateBounded {
                s_max: s_max.mul_rounded(scale),
            },
            DisturbanceKind::Impulsive { amplitude, start, len } => DisturbanceKind::Impulsive {
                amplitude: amplitude.mul_rounded(scale),
                start: saturating_sum(*start, key % 3),
                len: *len,
            },
            DisturbanceKind::PersistentElevated { r_nom, r_high, step_time } => {
                DisturbanceKind::PersistentElevated {
                    r_nom: r_nom.mul_rounded(scale),
                    r_high: r_high.mul_rounded(scale),
                    step_time: saturating_sum(*step_time, key % 4),
                }
            },
        }
    }

    /// Whether a disturbance of this kind can be run: a drift needs a bound
    /// that is not below its own negation, which rules out negative bounds
    /// and NaN.
    pub open spec fn is_runnable(self) -> bool {
        match self {
            DisturbanceKind::Drift { b, s_max } => s_max.negated().at_most(s_max),
            _ => true,
        }
    }

    pub fn runnable(&self) -> (r: bool)
        ensures
            r == self.is_runnable(),
    {
        match self {
            DisturbanceKind::Drift { b, s_max } => s_max.neg().le(*s_max),
            _ => true,
        }
    }
}

/// The constant disturbance `d`.
#[derive(Clone, Copy, Debug)]
pub struct PointwiseBoundedDisturbance {
    pub d: Binary64,
}

impl PointwiseBoundedDisturbance {
    pub fn new(d: Binary64) -> (r: PointwiseBoundedDisturbance)
        ensures
            r.d == d,
    {
        PointwiseBoundedDisturbance { d }
    }

    pub fn reset(&mut self)
        ensures
            *final(self) == *old(self),
    {
    }

    pub fn next(&mut self, n: usize) -> (r: Binary64)
        ensures
            *final(self) == *old(self),
            r == old(self).d,
    {
        self.d
    }
}

/// The disturbance `b * n`, held to `[-s_max, s_max]`.
#[derive(Clone, Copy, Debug)]
pub struct DriftDisturbance {
    pub b: Binary64,
    pub s_max: Binary64,
}

impl DriftDisturbance {
    pub fn new(b: Binary64, s_max: Binary64) -> (r: DriftDisturbance)
        ensures
            r.b == b,
            r.s_max == s_max,
    {
        DriftDisturbance { b, s_max }
    }

    /// The drift at step `n`.
    pub open spec fn value_at(self, n: usize) -> Binary64 {
        held_between(self.b.times(count_number(n as nat)), self.s_max.negated(), self.s_max)
    }

    pub fn reset(&mut self)
        ensures
            *final(self) == *old(self),
    {
    }

    pub fn next(&mut self, n: usize) -> (r: Binary64)
        requires
            old(self).s_max.negated().at_most(old(self).s_max),
        ensures
            *final(self) == *old(self),
            r == old(self).value_at(n),
    {
        clamp(self.b.mul_rounded(Binary64::from_count(n)), self.s_max.neg(), self.s_max)
    }
}

/// A disturbance that grows by `s_max` with every step but the first.
#[derive(Clone, Copy, Debug)]
pub struct SlewRateBoundedDisturbance {
    pub s_max: Binary64,
    pub value: Binary64,
}

impl SlewRateBoundedDisturbance {
    pub fn new(s_max: Binary64) -> (r: SlewRateBoundedDisturbance)
        ensures
            r.s_max == s_max,
            r.value == number(ZERO_BITS),
    {
        SlewRateBoundedDisturbance { s_max, value: Binary64::zero() }
    }

    pub fn reset(&mut self)
        ensures
            final(self).s_max == old(self).s_max,
            final(self).value == number(ZERO_BITS),
    {
        self.value = Binary64::zero();
    }

    /// The value after the step `n`: unchanged at step 0, grown by `s_max`
    /// at any other.
    pub open spec fn value_after(self, n: usize) -> Binary64 {
        if n == 0 {
            self.value
        } else {
            self.value.plus(self.s_max)
        }
    }

    pub fn next(&mut self, n: usize) -> (r: Binary64)
        ensures
            final(self).s_max == old(self).s_max,
            final(self).value == old(self).value_after(n),
            r == final(self).value,
    {
        if n == 0 {
            return self.value;
        }
        self.value = self.value.add_rounded(self.s_max);
        self.value
    }
}

/// The disturbance `amplitude` over `len` steps from `start` on.
#[derive(Clone, Copy, Debug)]
pub struct ImpulsiveDisturbance {
    pub amplitude: Binary64,
    pub start: usize,
    pub len: usize,
}

impl ImpulsiveDisturbance {
    pub fn new(amplitude: Binary64, start: usize, len: usize) -> (r: ImpulsiveDisturbance)
        ensures
            r.amplitude == amplitude,
            r.start == start,
            r.len == len,
    {
        ImpulsiveDisturbance { amplitude, start, len }
    }

    /// The impulse at step `n`.
    pub open spec fn value_at(self, n: usize) -> Binary64 {
        if self.start <= n < capped_sum(self.start, self.len) {
            self.amplitude
        } else {
            number(ZERO_BITS)
        }
    }

    pub fn reset(&mut self)
        ensures
            *final(self) == *old(self),
    {
    }

    pub fn next(&mut self, n: usize) -> (r: Binary64)
        ensures
            *final(self) == *old(self),
            r == old(self).value_at(n),
    {
        if n >= self.start && n < saturating_sum(self.start, self.len) {
            self.amplitude
        } else {
            Binary64::zero()
        }
    }
}

/// The disturbance `r_nom` before `step_time` and `r_high` from then on.
#[derive(Clone, Copy, Debug)]
pub struct PersistentElevatedDisturbance {
    pub r_nom: Binary64,
    pub r_high: Binary64,
    pub step_time: usize,
}

impl PersistentElevatedDisturbance {
    pub fn new(r_nom: Binary64, r_high: Binary64, step_time: usize) -> (r:
        PersistentElevatedDisturbance)
        ensures
            r.r_nom == r_nom,
            r.r_high == r_high,
            r.step_time == step_time,
    {
        PersistentElevatedDisturbance { r_nom, r_high, step_time }
    }

    /// The level at step `n`.
    pub open spec fn value_at(self, n: usize) -> Binary64 {
        if n < self.step_time {
            self.r_nom
        } else {
            self.r_high
        }
    }

    pub fn reset(&mut self)
        ensures
            *final(self) == *old(self),
    {
    }

    pub fn next(&mut self, n: usize) -> (r: Binary64)
        ensures
            *final(self) == *old(self),
            r == old(self).value_at(n),
    {
        if n < self.step_time {
            self.r_nom
        } else {
            self.r_high
        }
    }
}

/// A disturbance of any kind, ready to run.
#[derive(Clone, Copy, Debug)]
pub enum Disturbance {
    PointwiseBounded(PointwiseBoundedDisturbance),
    Drift(DriftDisturbance),
    SlewRateBounded(SlewRateBoundedDisturbance),
    Impulsive(ImpulsiveDisturbance),
    PersistentElevated(PersistentElevatedDisturbance),
}

/// The disturbance that a kind describes, before its first step.
pub open spec fn built(kind: DisturbanceKind) -> Disturbance {
    match kind {
        DisturbanceKind::PointwiseBounded { d } => Disturbance::PointwiseBounded(
            PointwiseBoundedDisturbance { d },
        ),
        DisturbanceKind::Drift { b, s_max } => Disturbance::Drift(DriftDisturbance { b, s_max }),
        DisturbanceKind::SlewRateBounded { s_max } => Disturbance::SlewRateBounded(
            SlewRateBoundedDisturbance { s_max, value: number(ZERO_BITS) },
        ),
        DisturbanceKind::Impulsive { amplitude, start, len } => Disturbance::Impulsive(
            ImpulsiveDisturbance { amplitude, start, len },
        ),
        DisturbanceKind::PersistentElevated { r_nom, r_high, step_time } => {
            Disturbance::PersistentElevated(
                PersistentElevatedDisturbance { r_nom, r_high, step_time },
            )
        },
    }
}

/// Builds the disturbance that `kind` describes.
pub fn build_disturbance(kind: &DisturbanceKind) -> (r: Disturbance)
    ensures
        r == built(*kind),
{
    match kind {
        DisturbanceKind::PointwiseBounded { d } => Disturbance::PointwiseBounded(
            PointwiseBoundedDisturbance::new(*d),
        ),
        DisturbanceKind::Drift { b, s_max } => Disturbance::Drift(DriftDisturbance::new(*b, *s_max)),
        DisturbanceKind::SlewRateBounded { s_max } => Disturbance::SlewRateBounded(
            SlewRateBoundedDisturbance::new(*s_max),
        ),
        DisturbanceKind::Impulsive { amplitude, start, len } => Disturbance::Impulsive(
            ImpulsiveDisturbance::new(*amplitude, *start, *len),
        ),
        DisturbanceKind::PersistentElevated { r_nom, r_high, step_time } => {
            Disturbance::PersistentElevated(
                PersistentElevatedDisturbance::new(*r_nom, *r_high, *step_time),
            )
        },
    }
}

impl Disturbance {
    /// A drift has a bound that is not below its own negation.
    pub open spec fn is_runnable(self) -> bool {
        match self {
            Disturbance::Drift(inner) => inner.s_max.negated().at_most(inner.s_max),
            _ => true,
        }
    }

    /// The disturbance back before its first step.
    pub open spec fn restarted(self) -> Disturbance {
        match self {
            Disturbance::SlewRateBounded(inner) => Disturbance::SlewRateBounded(
                SlewRateBoundedDisturbance { s_max: inner.s_max, value: number(ZERO_BITS) },
            ),
            _ => self,
        }
    }

    /// The disturbance after step `n`.
    pub open spec fn after(self, n: usize) -> Disturbance {
        match self {
            Disturbance::SlewRateBounded(inner) => Disturbance::SlewRateBounded(
                SlewRateBoundedDisturbance { s_max: inner.s_max, value: inner.value_after(n) },
            ),
            _ => self,
        }
    }

    /// The value that step `n` yields.
    pub open spec fn value_at(self, n: usize) -> Binary64 {
        match self {
            Disturbance::PointwiseBounded(inner) => inner.d,
            Disturbance::Drift(inner) => inner.value_at(n),
            Disturbance::SlewRateBounded(inner) => inner.value_after(n),
            Disturbance::Impulsive(inner) => inner.value_at(n),
            Disturbance::PersistentElevated(inner) => inner.value_at(n),
        }
    }

    pub fn reset(&mut self)
        ensures
            *final(self) == old(self).restarted(),
    {
        match self {
            Disturbance::SlewRateBounded(inner) => inner.reset(),
            _ => {},
        }
    }

    /// Yields the value of step `n`.
    pub fn next(&mut self, n: usize) -> (r: Binary64)
        requires
            old(self).is_runnable(),
        ensures
            *final(self) == old(self).after(n),
            final(self).is_runnable(),
            r == old(self).value_at(n),
    {
        match self {
            Disturbance::PointwiseBounded(inner) => inner.next(n),
            Disturbance::Drift(inner) => inner.next(n),
            Disturbance::SlewRateBounded(inner) => inner.next(n),
            Disturbance::Impulsive(inner) => inner.next(n),
            Disturbance::PersistentElevated(inner) => inner.next(n),
        }
    }
}

} // verus!
