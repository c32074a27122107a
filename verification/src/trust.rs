//! Trust scores and their normalisation into convex weights.
use vstd::prelude::*;
use crate::binary64::Binary64;
use crate::error::InputError;
use crate::validate::input_rejection;
use crate::validate::validate_input;
use crate::binary64::count_number;
use crate::binary64::number;
use crate::binary64::ONE_BITS;
use crate::binary64::ZERO_BITS;
use crate::envelope::advance_envelope;
use crate::envelope::envelope_next;
use crate::envelope::is_finite_non_negative;
use crate::envelope::finite_non_negative_ok;

verus! {

/// Pattern of `1e-12`: a total score must exceed this to be divided by.
/// At or below it the weights fall back to the uniform distribution.
pub const WEIGHT_SUM_EPS_BITS: u64 = 0x3D71_9799_812D_EA11;

/// Pattern of `1e-9`: how far the sum of convex weights may lie from 1.
pub const CONVEXITY_TOLERANCE_BITS: u64 = 0x3E11_2E0B_E826_D695;

/// Bounded-affine trust `1 / (1 + beta * s)`.
pub open spec fn bounded_affine(beta: Binary64, s: Binary64) -> Binary64 {
    number(ONE_BITS).over(number(ONE_BITS).plus(beta.times(s)))
}

/// Softness-additive trust `1 / (sigma0 + s)`.
pub open spec fn softness_additive(sigma0: Binary64, s: Binary64) -> Binary64 {
    number(ONE_BITS).over(sigma0.plus(s))
}

/// How an envelope is turned into an unnormalised trust score.
#[derive(Clone, Copy, Debug)]
pub enum TrustMap {
    /// `1 / (sigma0 + s)`, meant for `sigma0 > 0`.
    SoftnessAdditive { sigma0: Binary64 },
    /// `1 / (1 + beta * s)`, meant for `beta >= 0`.
    BoundedAffine { beta: Binary64 },
}

impl TrustMap {
    pub open spec fn score_of(self, s: Binary64) -> Binary64 {
        match self {
            TrustMap::SoftnessAdditive { sigma0 } => softness_additive(sigma0, s),
            TrustMap::BoundedAffine { beta } => bounded_affine(beta, s),
        }
    }

    /// The parameter lies in the range the map is meant for: a finite
    /// `sigma0` above 0, or a finite `beta` not below 0.
    pub open spec fn is_admissible(self) -> bool {
        match self {
            TrustMap::SoftnessAdditive { sigma0 } => sigma0.is_finite_spec() && sigma0.exceeds(
                number(ZERO_BITS),
            ),
            TrustMap::BoundedAffine { beta } => is_finite_non_negative(beta),
        }
    }

    /// The trust score of envelope `s`.
    pub fn score(self, s: Binary64) -> (r: Binary64)
        ensures
            r == self.score_of(s),
    {
        match self {
            TrustMap::SoftnessAdditive { sigma0 } => Binary64::one().div_rounded(
                sigma0.add_rounded(s),
            ),
            TrustMap::BoundedAffine { beta } => Binary64::one().div_rounded(
                Binary64::one().add_rounded(beta.mul_rounded(s)),
            ),
        }
    }

    pub fn admissible(self) -> (r: bool)
        ensures
            r == self.is_admissible(),
    {
        match self {
            TrustMap::SoftnessAdditive { sigma0 } => sigma0.is_finite() && sigma0.gt(
                Binary64::zero(),
            ),
            TrustMap::BoundedAffine { beta } => finite_non_negative_ok(beta),
        }
    }
}

/// Envelope and normalised weight of one channel.
#[derive(Clone, Copy, Debug, PartialEq)]
pub struct TrustStats {
    /// Moving average of the absolute residual.
    pub residual_ema: Binary64,
    /// Normalised trust weight.
    pub weight: Binary64,
}

impl TrustStats {
    /// Statistics before any residual was seen: envelope 0, weight 1.
    pub fn new() -> (r: TrustStats)
        ensures
            r.residual_ema == number(ZERO_BITS),
            r.weight == number(ONE_BITS),
    {
        TrustStats { residual_ema: Binary64::zero(), weight: Binary64::one() }
    }
}

impl Default for TrustStats {
    fn default() -> (r: TrustStats)
        ensures
            r.residual_ema == number(ZERO_BITS),
            r.weight == number(ONE_BITS),
    {
        TrustStats::new()
    }
}

/// Trust mapping of a single channel.
#[derive(Clone, Copy, Debug, Default)]
pub struct TrustWeight;

impl TrustWeight {
    /// Bounded-affine trust of envelope `s` under sensitivity `beta`.
    pub fn weight(beta: Binary64, s: Binary64) -> (r: Binary64)
        ensures
            r == bounded_affine(beta, s),
    {
        (TrustMap::BoundedAffine { beta }).score(s)
    }
}

/// Sum of the numbers from left to right, starting at `+0.0` and rounding
/// after each addition. This is the order for any number of entries: they
/// are never paired or gathered in partial sums first, which from a few
/// entries on could give another last bit.
pub open spec fn running_sum(xs: Seq<Binary64>) -> Binary64
    decreases xs.len(),
{
    if xs.len() == 0 {
        number(ZERO_BITS)
    } else {
        running_sum(xs.drop_last()).plus(xs.last())
    }
}

/// Adds the numbers up from left to right.
pub fn sum(xs: &Vec<Binary64>) -> (r: Binary64)
    ensures
        r == running_sum(xs@),
{
    let mut acc = Binary64::zero();
    let mut i: usize = 0;
    while i < xs.len()
        invariant
            i <= xs.len(),
            acc == running_sum(xs@.take(i as int)),
        decreases xs.len() - i,
    {
        proof {
            assert(xs@.take(i + 1).drop_last() =~= xs@.take(i as int));
        }
        acc = acc.add_rounded(xs[i]);
        i += 1;
    }
    proof {
        assert(xs@.take(xs.len() as int) =~= xs@);
    }
    acc
}

/// A total score is divided by only if it exceeds the threshold `1e-12`.
pub open spec fn total_is_usable(total: Binary64) -> bool {
    total.exceeds(number(WEIGHT_SUM_EPS_BITS))
}

/// The weight `1 / n` of the uniform distribution over `n` entries.
pub open spec fn uniform_weight(n: nat) -> Binary64 {
    number(ONE_BITS).over(count_number(n))
}

/// The weights for `scores` whose total is `total`: each score over the
/// total where the total is usable, else the uniform distribution.
pub open spec fn weights_for_total(scores: Seq<Binary64>, total: Binary64) -> Seq<Binary64> {
    if total_is_usable(total) {
        Seq::new(scores.len(), |i: int| scores[i].over(total))
    } else {
        Seq::new(scores.len(), |i: int| uniform_weight(scores.len()))
    }
}

/// The convex weights that `scores` normalise to.
pub open spec fn normalized(scores: Seq<Binary64>) -> Seq<Binary64> {
    weights_for_total(scores, running_sum(scores))
}

/// Whether a total score exceeds the threshold.
pub fn total_usable(total: Binary64) -> (r: bool)
    ensures
        r == total_is_usable(total),
{
    total.gt(Binary64::from_bits(WEIGHT_SUM_EPS_BITS))
}

/// Normalises `scores` against a total that the caller has computed.
pub fn normalize_with_total(scores: &Vec<Binary64>, total: Binary64) -> (r: Vec<Binary64>)
    ensures
        r@ == weights_for_total(scores@, total),
{
    let n = scores.len();
    let mut out: Vec<Binary64> = Vec::new();
    let mut i: usize = 0;
    if total_usable(total) {
        while i < n
            invariant
                n == scores.len(),
                i <= n,
                out@.len() == i,
                forall|j: int| 0 <= j < i ==> out@[j] == scores@[j].over(total),
            decreases n - i,
        {
            out.push(scores[i].div_rounded(total));
            i += 1;
        }
    } else {
        let uniform = Binary64::one().div_rounded(Binary64::from_count(n));
        while i < n
            invariant
                i <= n,
                out@.len() == i,
                forall|j: int| 0 <= j < i ==> out@[j] == uniform,
            decreases n - i,
        {
            out.push(uniform);
            i += 1;
        }
    }
    assert(out@ =~= weights_for_total(scores@, total));
    out
}

/// Normalises non-negative scores into weights that sum to 1, falling back
/// to the uniform distribution where the total underflows.
pub fn normalize_weights(scores: &Vec<Binary64>) -> (r: Vec<Binary64>)
    ensures
        r@ == normalized(scores@),
{
    let total = sum(scores);
    normalize_with_total(scores, total)
}

/// Every weight lies in `[0, 1]` and the weights sum to 1 within `1e-9`.
pub open spec fn is_convex(weights: Seq<Binary64>) -> bool {
    &&& forall|i: int|
        0 <= i < weights.len() ==> (#[trigger] weights[i]).at_least(number(ZERO_BITS))
            && weights[i].at_most(number(ONE_BITS))
    &&& running_sum(weights).minus(number(ONE_BITS)).magnitude().at_most(
        number(CONVEXITY_TOLERANCE_BITS),
    )
}

/// Checks at run time that `weights` form a convex combination. The
/// estimators never abort on a violation; a caller that wants the check
/// asks for it here.
pub fn weights_are_convex(weights: &Vec<Binary64>) -> (r: bool)
    ensures
        r == is_convex(weights@),
{
    let mut i: usize = 0;
    while i < weights.len()
        invariant
            i <= weights.len(),
            forall|j: int|
                0 <= j < i ==> (#[trigger] weights@[j]).at_least(number(ZERO_BITS))
                    && weights@[j].at_most(number(ONE_BITS)),
        decreases weights.len() - i,
    {
        if !(weights[i].ge(Binary64::zero()) && weights[i].le(Binary64::one())) {
            return false;
        }
        i += 1;
    }
    let excess = sum(weights).sub_rounded(Binary64::one()).abs();
    excess.le(Binary64::from_bits(CONVEXITY_TOLERANCE_BITS))
}

/// The envelopes after the residuals were taken in: the first
/// `residuals.len()` entries advance, the others stay.
pub open spec fn advanced_envelopes(
    rho: Binary64,
    envelopes: Seq<Binary64>,
    residuals: Seq<Binary64>,
) -> Seq<Binary64> {
    Seq::new(
        envelopes.len(),
        |k: int|
            if k < residuals.len() {
                envelope_next(rho, envelopes[k], residuals[k])
            } else {
                envelopes[k]
            },
    )
}

/// The softness-additive scores of the first `n` envelopes.
pub open spec fn softness_scores(sigma0: Binary64, envelopes: Seq<Binary64>, n: nat) -> Seq<
    Binary64,
> {
    Seq::new(n, |k: int| softness_additive(sigma0, envelopes[k]))
}

/// Advances the envelope of each channel by its residual and returns the
/// normalised softness-additive trust weights of the channels. The
/// residuals are refused, and every envelope stays as it was, where there
/// is not one residual per envelope or a residual is infinite or NaN.
pub fn calculate_trust_weights(
    residuals: &Vec<Binary64>,
    ema_residuals: &mut Vec<Binary64>,
    rho: Binary64,
    sigma0: Binary64,
) -> (r: Result<Vec<Binary64>, InputError>)
    ensures
        match r {
            Ok(weights) => {
                &&& input_rejection(old(ema_residuals)@.len() as usize, residuals@) is None
                &&& final(ema_residuals)@ == advanced_envelopes(
                    rho,
                    old(ema_residuals)@,
                    residuals@,
                )
                &&& weights@ == normalized(
                    softness_scores(sigma0, final(ema_residuals)@, residuals@.len()),
                )
            },
            Err(e) => {
                &&& input_rejection(old(ema_residuals)@.len() as usize, residuals@) == Some(e)
                &&& *final(ema_residuals) == *old(ema_residuals)
            },
        },
{
    match validate_input(ema_residuals.len(), residuals) {
        Err(e) => return Err(e),
        Ok(_) => {},
    }
    let n = residuals.len();
    let map = TrustMap::SoftnessAdditive { sigma0 };
    let mut raw_weights: Vec<Binary64> = Vec::new();
    let mut k: usize = 0;
    while k < n
        invariant
            n == residuals.len(),
            n == ema_residuals.len(),
            ema_residuals.len() == old(ema_residuals).len(),
            k <= n,
            map == (TrustMap::SoftnessAdditive { sigma0 }),
            raw_weights@.len() == k,
            forall|j: int|
                0 <= j < k ==> ema_residuals@[j] == envelope_next(
                    rho,
                    old(ema_residuals)@[j],
                    residuals@[j],
                ),
            forall|j: int| k <= j < ema_residuals.len() ==> ema_residuals@[j] == old(
                ema_residuals,
            )@[j],
            forall|j: int|
                0 <= j < k ==> raw_weights@[j] == softness_additive(sigma0, ema_residuals@[j]),
        decreases n - k,
    {
        let s = advance_envelope(rho, ema_residuals[k], residuals[k]);
        ema_residuals.set(k, s);
        raw_weights.push(map.score(s));
        k += 1;
    }
    assert(ema_residuals@ =~= advanced_envelopes(rho, old(ema_residuals)@, residuals@));
    assert(raw_weights@ =~= softness_scores(sigma0, ema_residuals@, n as nat));
    Ok(normalize_weights(&raw_weights))
}

} // verus!
