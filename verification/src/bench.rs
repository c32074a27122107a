//! The reconstruction methods of the fusion benchmark by name, its run
//! manifest, and the timing of its steps.
use vstd::prelude::*;
use vstd::string::StringExecFns;
use crate::binary64::Binary64;
use crate::binary64::count_number;
use crate::binary64::number;
use crate::binary64::ONE_BITS;
use crate::binary64::ZERO_BITS;

verus! {

/// The texts of the strings.
pub open spec fn texts(names: Seq<String>) -> Seq<Seq<char>> {
    Seq::new(names.len(), |i: int| names[i]@)
}

/// `name` alone where `raw` lists it, else nothing.
pub open spec fn listed(raw: Seq<Seq<char>>, name: Seq<char>) -> Seq<Seq<char>> {
    if raw.contains(name) {
        seq![name]
    } else {
        Seq::empty()
    }
}

/// The known methods among `raw`, each once, in reporting order.
pub open spec fn canonical(raw: Seq<Seq<char>>) -> Seq<Seq<char>> {
    listed(raw, "equal"@) + listed(raw, "cov_inflate"@) + listed(raw, "irls_huber"@) + listed(
        raw,
        "nis_hard"@,
    ) + listed(raw, "nis_soft"@) + listed(raw, "dsfb"@)
}

/// Whether `raw` holds `name`.
pub fn is_listed(raw: &[String], name: &str) -> (r: bool)
    ensures
        r == texts(raw@).contains(name@),
{
    let wanted = String::from_str(name);
    let mut i: usize = 0;
    while i < raw.len()
        invariant
            i <= raw.len(),
            wanted@ == name@,
            forall|j: int| 0 <= j < i ==> (#[trigger] texts(raw@)[j]) != name@,
        decreases raw.len() - i,
    {
        if raw[i] == wanted {
            assert(texts(raw@)[i as int] == name@);
            return true;
        }
        i += 1;
    }
    false
}

fn push_if_listed(out: &mut Vec<String>, raw: &[String], name: &str)
    ensures
        texts(final(out)@) == texts(old(out)@) + listed(texts(raw@), name@),
{
    if is_listed(raw, name) {
        out.push(String::from_str(name));
    }
    assert(texts(final(out)@) =~= texts(old(out)@) + listed(texts(raw@), name@));
}

/// Puts the requested method names into reporting order, dropping unknown
/// names and repetitions.
pub fn canonical_method_list(raw: &[String]) -> (r: Vec<String>)
    ensures
        texts(r@) == canonical(texts(raw@)),
{
    let mut out: Vec<String> = Vec::new();
    assert(texts(out@) =~= Seq::<Seq<char>>::empty());
    push_if_listed(&mut out, raw, "equal");
    push_if_listed(&mut out, raw, "cov_inflate");
    push_if_listed(&mut out, raw, "irls_huber");
    push_if_listed(&mut out, raw, "nis_hard");
    push_if_listed(&mut out, raw, "nis_soft");
    push_if_listed(&mut out, raw, "dsfb");
    assert(texts(out@) =~= canonical(texts(raw@)));
    out
}

/// The method that gives every group the same weight.
#[derive(Clone, Copy, Debug, Default)]
pub struct EqualMethod;

impl EqualMethod {
    pub fn name(&self) -> (r: &'static str)
        ensures
            r@ == "equal"@,
    {
        "equal"
    }

    /// This method reports no weights.
    pub fn has_weights(&self) -> (r: bool)
        ensures
            !r,
    {
        false
    }
}

/// The reconstruction methods.
#[derive(Clone, Copy, Debug, PartialEq, Eq, Structural)]
pub enum MethodKind {
    Equal,
    CovInflate,
    IrlsHuber,
    NisHard,
    NisSoft,
    Dsfb,
}

/// The method of the given name, if there is one.
pub open spec fn kind_named(name: Seq<char>) -> Option<MethodKind> {
    if name == "equal"@ {
        Some(MethodKind::Equal)
    } else if name == "cov_inflate"@ {
        Some(MethodKind::CovInflate)
    } else if name == "irls_huber"@ {
        Some(MethodKind::IrlsHuber)
    } else if name == "nis_hard"@ {
        Some(MethodKind::NisHard)
    } else if name == "nis_soft"@ {
        Some(MethodKind::NisSoft)
    } else if name == "dsfb"@ {
        Some(MethodKind::Dsfb)
    } else {
        None
    }
}

impl MethodKind {
    pub open spec fn label(self) -> Seq<char> {
        match self {
            MethodKind::Equal => "equal"@,
            MethodKind::CovInflate => "cov_inflate"@,
            MethodKind::IrlsHuber => "irls_huber"@,
            MethodKind::NisHard => "nis_hard"@,
            MethodKind::NisSoft => "nis_soft"@,
            MethodKind::Dsfb => "dsfb"@,
        }
    }

    /// Whether the method weighs whole groups and reports those weights.
    pub open spec fn weighs_groups(self) -> bool {
        self == MethodKind::CovInflate || self == MethodKind::NisHard || self
            == MethodKind::NisSoft || self == MethodKind::Dsfb
    }

    /// The name under which the method is asked for and reported.
    pub fn name(self) -> (r: &'static str)
        ensures
            r@ == self.label(),
    {
        match self {
            MethodKind::Equal => "equal",
            MethodKind::CovInflate => "cov_inflate",
            MethodKind::IrlsHuber => "irls_huber",
            MethodKind::NisHard => "nis_hard",
            MethodKind::NisSoft => "nis_soft",
            MethodKind::Dsfb => "dsfb",
        }
    }

    /// Whether the method reports group weights.
    pub fn has_weights(self) -> (r: bool)
        ensures
            r == self.weighs_groups(),
    {
        match self {
            MethodKind::Equal => false,
            MethodKind::CovInflate => true,
            MethodKind::IrlsHuber => false,
            MethodKind::NisHard => true,
            MethodKind::NisSoft => true,
            MethodKind::Dsfb => true,
        }
    }
}

fn same_text(a: &str, b: &str) -> (r: bool)
    ensures
        r == (a@ == b@),
{
    String::from_str(a) == String::from_str(b)
}

/// Picks the method of the given name; names are told apart letter by
/// letter, and an unknown name gives nothing.
pub fn build_method(name: &str) -> (r: Option<MethodKind>)
    ensures
        r == kind_named(name@),
{
    if same_text(name, "equal") {
        Some(MethodKind::Equal)
    } else if same_text(name, "cov_inflate") {
        Some(MethodKind::CovInflate)
    } else if same_text(name, "irls_huber") {
        Some(MethodKind::IrlsHuber)
    } else if same_text(name, "nis_hard") {
        Some(MethodKind::NisHard)
    } else if same_text(name, "nis_soft") {
        Some(MethodKind::NisSoft)
    } else if same_text(name, "dsfb") {
        Some(MethodKind::Dsfb)
    } else {
        None
    }
}

/// How a group is gated by its normalised innovation squared.
#[derive(Clone, Copy, Debug, PartialEq, Eq, Structural)]
pub enum NisMode {
    /// A group above the threshold is dropped.
    Hard,
    /// A group above the threshold is weighed down by its excess.
    Soft,
}

/// Pattern of `3.0`, the gating threshold before any configuration.
pub const DEFAULT_NIS_THRESHOLD_BITS: u64 = 0x4008_0000_0000_0000;

/// Pattern of `0.5`, the soft gating scale before any configuration.
pub const DEFAULT_NIS_SOFT_SCALE_BITS: u64 = 0x3FE0_0000_0000_0000;

/// The larger of two numbers as the standard's `maxNum` has it for the
/// cases met here: `a` unless `b` exceeds it or `a` is a NaN.
pub open spec fn larger(a: Binary64, b: Binary64) -> Binary64 {
    if a.is_nan_spec() || b.exceeds(a) {
        b
    } else {
        a
    }
}

/// `x` held to `[0, 1]`; a NaN stays a NaN.
pub open spec fn held_to_unit(x: Binary64) -> Binary64 {
    if x.below(number(ZERO_BITS)) {
        number(ZERO_BITS)
    } else if x.exceeds(number(ONE_BITS)) {
        number(ONE_BITS)
    } else {
        x
    }
}

impl NisMode {
    /// The name of the gating method in this mode.
    pub open spec fn method_name(self) -> Seq<char> {
        match self {
            NisMode::Hard => "nis_hard"@,
            NisMode::Soft => "nis_soft"@,
        }
    }

    /// The weight of a group whose statistic is `nis`: under hard gating 0
    /// above the threshold and 1 otherwise; under soft gating
    /// `1 / (1 + soft_scale * excess)` with the excess over the threshold
    /// counted from 0. Either is held to `[0, 1]`.
    pub open spec fn gate(self, nis: Binary64, threshold: Binary64, soft_scale: Binary64)
        -> Binary64 {
        match self {
            NisMode::Hard => if nis.exceeds(threshold) {
                number(ZERO_BITS)
            } else {
                number(ONE_BITS)
            },
            NisMode::Soft => held_to_unit(
                number(ONE_BITS).over(
                    number(ONE_BITS).plus(
                        soft_scale.times(larger(nis.minus(threshold), number(ZERO_BITS))),
                    ),
                ),
            ),
        }
    }

    pub fn name(self) -> (r: &'static str)
        ensures
            r@ == self.method_name(),
    {
        match self {
            NisMode::Hard => "nis_hard",
            NisMode::Soft => "nis_soft",
        }
    }

    /// The weight of a group whose statistic is `nis`.
    pub fn weight(self, nis: Binary64, threshold: Binary64, soft_scale: Binary64) -> (r: Binary64)
        ensures
            r == self.gate(nis, threshold, soft_scale),
    {
        match self {
            NisMode::Hard => {
                if nis.gt(threshold) {
                    Binary64::zero()
                } else {
                    Binary64::one()
                }
            },
            NisMode::Soft => {
                let difference = nis.sub_rounded(threshold);
                let zero = Binary64::zero();
                let excess = if difference.is_nan() || zero.gt(difference) {
                    zero
                } else {
                    difference
                };
                let w = Binary64::one().div_rounded(
                    Binary64::one().add_rounded(soft_scale.mul_rounded(excess)),
                );
                if w.lt(Binary64::zero()) {
                    Binary64::zero()
                } else if w.gt(Binary64::one()) {
                    Binary64::one()
                } else {
                    w
                }
            },
        }
    }
}

/// What a benchmark run writes down about itself.
#[derive(Debug)]
pub struct Manifest {
    pub schema_version: String,
    pub mode: String,
    pub methods: Vec<String>,
    pub seeds: Vec<u64>,
    pub note: String,
}

/// Nanoseconds in a second.
pub const NANOS_PER_SECOND: u128 = 1_000_000_000;

/// Pattern of `1e9`.
pub const BILLION_BITS: u64 = 0x41CD_CD65_0000_0000;

/// Pattern of `1e6`.
pub const MILLION_BITS: u64 = 0x412E_8480_0000_0000;

/// The longest time that can be accumulated, in nanoseconds:
/// `u64::MAX` seconds and 999,999,999 nanoseconds.
pub const LONGEST_NANOS: u128 = 18_446_744_073_709_551_615_999_999_999;

/// A time in nanoseconds as seconds: the whole seconds plus the remaining
/// nanoseconds over `1e9`.
pub open spec fn seconds_of(nanos: u128) -> Binary64 {
    count_number((nanos / NANOS_PER_SECOND) as nat).plus(
        count_number((nanos % NANOS_PER_SECOND) as nat).over(number(BILLION_BITS)),
    )
}

/// The mean time per step in microseconds; 0 where no step was taken.
pub open spec fn mean_micros(nanos: u128, steps: usize) -> Binary64 {
    if steps == 0 {
        number(ZERO_BITS)
    } else {
        seconds_of(nanos).times(number(MILLION_BITS)).over(count_number(steps as nat))
    }
}

fn mean_micros_of(nanos: u128, steps: usize) -> (r: Binary64)
    requires
        nanos <= LONGEST_NANOS,
    ensures
        r == mean_micros(nanos, steps),
{
    if steps == 0 {
        return Binary64::zero();
    }
    let whole = Binary64::from_u64((nanos / NANOS_PER_SECOND) as u64);
    let rest = Binary64::from_u64((nanos % NANOS_PER_SECOND) as u64);
    let seconds = whole.add_rounded(rest.div_rounded(Binary64::from_bits(BILLION_BITS)));
    seconds.mul_rounded(Binary64::from_bits(MILLION_BITS)).div_rounded(Binary64::from_count(steps))
}

/// Time spent solving and time spent in all, summed over the steps taken.
/// Times are whole nanoseconds.
#[derive(Clone, Copy, Debug)]
pub struct TimingAccumulator {
    pub solve_time: u128,
    pub total_time: u128,
    pub steps: usize,
}

impl TimingAccumulator {
    /// No accumulated time exceeds the longest representable one.
    pub open spec fn wf(&self) -> bool {
        self.solve_time <= LONGEST_NANOS && self.total_time <= LONGEST_NANOS
    }

    /// An accumulator that has seen no step.
    pub fn new() -> (r: TimingAccumulator)
        ensures
            r.wf(),
            r.solve_time == 0,
            r.total_time == 0,
            r.steps == 0,
    {
        TimingAccumulator { solve_time: 0, total_time: 0, steps: 0 }
    }

    /// Adds the times of one more step.
    pub fn observe(&mut self, solve_time: u128, total_time: u128)
        requires
            old(self).solve_time + solve_time <= LONGEST_NANOS,
            old(self).total_time + total_time <= LONGEST_NANOS,
            old(self).steps < usize::MAX,
        ensures
            final(self).wf(),
            final(self).solve_time == old(self).solve_time + solve_time,
            final(self).total_time == old(self).total_time + total_time,
            final(self).steps == old(self).steps + 1,
    {
        self.solve_time += solve_time;
        self.total_time += total_time;
        self.steps += 1;
    }

    /// Adds the times of one more step where they fit, and says whether
    /// they did. The accumulator is unchanged where they did not.
    pub fn try_observe(&mut self, solve_time: u128, total_time: u128) -> (r: bool)
        requires
            old(self).wf(),
        ensures
            r == (old(self).solve_time + solve_time <= LONGEST_NANOS && old(self).total_time
                + total_time <= LONGEST_NANOS && old(self).steps < usize::MAX),
            r ==> final(self).wf() && final(self).solve_time == old(self).solve_time + solve_time
                && final(self).total_time == old(self).total_time + total_time && final(self).steps == old(self).steps + 1,
            !r ==> *final(self) == *old(self),
    {
        if solve_time <= LONGEST_NANOS - self.solve_time && total_time <= LONGEST_NANOS
            - self.total_time && self.steps < usize::MAX {
            self.observe(solve_time, total_time);
            true
        } else {
            false
        }
    }

    /// Mean solve time per step, in microseconds.
    pub fn avg_solve_us(&self) -> (r: Binary64)
        requires
            self.wf(),
        ensures
            r == mean_micros(self.solve_time, self.steps),
    {
        mean_micros_of(self.solve_time, self.steps)
    }

    /// Mean total time per step, in microseconds.
    pub fn avg_total_us(&self) -> (r: Binary64)
        requires
            self.wf(),
        ensures
            r == mean_micros(self.total_time, self.steps),
    {
        mean_micros_of(self.total_time, self.steps)
    }
}

impl Default for TimingAccumulator {
    fn default() -> (r: TimingAccumulator)
        ensures
            r.wf(),
            r.solve_time == 0,
            r.total_time == 0,
            r.steps == 0,
    {
        TimingAccumulator::new()
    }
}

/// Pattern of `1e-9`, the least factor that a covariance is inflated by.
pub const LEAST_INFLATION_BITS: u64 = 0x3E11_2E0B_E826_D695;

/// Pattern of `1e-12`, the least standard deviation that a residual is
/// held against.
pub const LEAST_SIGMA_BITS: u64 = 0x3D71_9799_812D_EA11;

/// The weight of a group whose covariance is inflated by `factor`:
/// `1 / factor`, with the factor held at `1e-9` from below and the weight
/// held to `[0, 1]`.
pub open spec fn inflated_weight(factor: Binary64) -> Binary64 {
    held_to_unit(number(ONE_BITS).over(larger(factor, number(LEAST_INFLATION_BITS))))
}

/// The weight of a group whose covariance is inflated by `factor`.
pub fn cov_inflate_weight(factor: Binary64) -> (r: Binary64)
    ensures
        r == inflated_weight(factor),
{
    let least = Binary64::from_bits(LEAST_INFLATION_BITS);
    let held = if factor.is_nan() || least.gt(factor) {
        least
    } else {
        factor
    };
    let w = Binary64::one().div_rounded(held);
    if w.lt(Binary64::zero()) {
        Binary64::zero()
    } else if w.gt(Binary64::one()) {
        Binary64::one()
    } else {
        w
    }
}

/// The group weights under covariance inflation: 1 for every group but the
/// corrupted one, which has the inflated weight. A corrupted group beyond
/// the last changes nothing.
pub fn cov_inflate_weights(groups: usize, corruption_group: usize, factor: Binary64) -> (r: Vec<
    Binary64,
>)
    ensures
        r@.len() == groups,
        forall|k: int|
            0 <= k < groups ==> #[trigger] r@[k] == (if k == corruption_group {
                inflated_weight(factor)
            } else {
                number(ONE_BITS)
            }),
{
    let w = cov_inflate_weight(factor);
    let mut weights: Vec<Binary64> = Vec::new();
    let mut k: usize = 0;
    while k < groups
        invariant
            k <= groups,
            w == inflated_weight(factor),
            weights@.len() == k,
            forall|j: int|
                0 <= j < k ==> #[trigger] weights@[j] == (if j == corruption_group {
                    inflated_weight(factor)
                } else {
                    number(ONE_BITS)
                }),
        decreases groups - k,
    {
        weights.push(if k == corruption_group { w } else { Binary64::one() });
        k += 1;
    }
    weights
}

/// The Huber weight of a residual against the variance of its measurement:
/// 1 where the residual, in standard deviations, is at most `delta`, else
/// `delta` over it. The standard deviation is held at `1e-12` from below.
pub open spec fn huber(residual: Binary64, variance: Binary64, delta: Binary64) -> Binary64 {
    let sigma = larger(variance.root(), number(LEAST_SIGMA_BITS));
    let abs_z = residual.over(sigma).magnitude();
    if abs_z.at_most(delta) {
        number(ONE_BITS)
    } else {
        delta.over(abs_z)
    }
}

/// The Huber weight of a residual.
pub fn huber_weight(residual: Binary64, variance: Binary64, delta: Binary64) -> (r: Binary64)
    ensures
        r == huber(residual, variance, delta),
{
    let least = Binary64::from_bits(LEAST_SIGMA_BITS);
    let root = variance.sqrt_rounded();
    let sigma = if root.is_nan() || least.gt(root) {
        least
    } else {
        root
    };
    let abs_z = residual.div_rounded(sigma).abs();
    if abs_z.le(delta) {
        Binary64::one()
    } else {
        delta.div_rounded(abs_z)
    }
}

/// The envelope of the adaptive method after a group's normalised
/// innovation was taken in: `(1 - beta) * envelope + beta * sqrt(nis)`.
pub open spec fn adaptive_envelope(beta: Binary64, envelope: Binary64, nis: Binary64) -> Binary64 {
    number(ONE_BITS).minus(beta).times(envelope).plus(beta.times(nis.root()))
}

/// By how much an envelope lies above 1; 0 where it does not.
pub open spec fn excess_over_one(envelope: Binary64) -> Binary64 {
    larger(envelope.minus(number(ONE_BITS)), number(ZERO_BITS))
}

/// The exponent of the adaptive method's trust: `-alpha` times the excess
/// of the envelope over 1.
pub open spec fn trust_exponent(alpha: Binary64, envelope: Binary64) -> Binary64 {
    alpha.negated().times(excess_over_one(envelope))
}

/// Takes the normalised innovation of a group into its envelope.
pub fn advance_adaptive_envelope(beta: Binary64, envelope: Binary64, nis: Binary64) -> (r: Binary64)
    ensures
        r == adaptive_envelope(beta, envelope, nis),
{
    Binary64::one().sub_rounded(beta).mul_rounded(envelope).add_rounded(
        beta.mul_rounded(nis.sqrt_rounded()),
    )
}

/// The exponent whose exponential is the trust in a group with the given
/// envelope.
pub fn adaptive_exponent(alpha: Binary64, envelope: Binary64) -> (r: Binary64)
    ensures
        r == trust_exponent(alpha, envelope),
{
    let over = envelope.sub_rounded(Binary64::one());
    let zero = Binary64::zero();
    let excess = if over.is_nan() || zero.gt(over) {
        zero
    } else {
        over
    };
    alpha.neg().mul_rounded(excess)
}

/// The weight of a group whose trust is `trust`: the trust held to
/// `[w_min, 1]`. A NaN stays a NaN.
pub fn adaptive_weight(trust: Binary64, w_min: Binary64) -> (r: Binary64)
    requires
        w_min.at_most(number(ONE_BITS)),
    ensures
        r == (if trust.below(w_min) {
            w_min
        } else if trust.exceeds(number(ONE_BITS)) {
            number(ONE_BITS)
        } else {
            trust
        }),
{
    if trust.lt(w_min) {
        w_min
    } else if trust.gt(Binary64::one()) {
        Binary64::one()
    } else {
        trust
    }
}

} // verus!
