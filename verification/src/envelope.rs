//! Residual envelopes: an exponential moving average of the absolute
//! residual, one number per channel or group.
use vstd::prelude::*;
use crate::binary64::Binary64;
use crate::binary64::number;
use crate::binary64::ONE_BITS;
use crate::binary64::ZERO_BITS;
use crate::error::ConfigurationError;
use crate::error::Field;
use crate::error::InputError;
use crate::trust::TrustStats;
use crate::trust::TrustWeight;
use crate::trust::bounded_affine;

verus! {

/// The moving average `rho * s + (1 - rho) * x`, each operation rounded.
pub open spec fn blend(rho: Binary64, s: Binary64, x: Binary64) -> Binary64 {
    rho.times(s).plus(number(ONE_BITS).minus(rho).times(x))
}

/// The envelope after one step: `rho * s + (1 - rho) * |residual|`.
pub open spec fn envelope_next(rho: Binary64, s: Binary64, residual: Binary64) -> Binary64 {
    blend(rho, s, residual.magnitude())
}

/// A forgetting factor is a finite number strictly between 0 and 1.
pub open spec fn is_forgetting_factor(rho: Binary64) -> bool {
    rho.is_finite_spec() && rho.exceeds(number(ZERO_BITS)) && rho.below(number(ONE_BITS))
}

/// A sensitivity, like an envelope, is finite and not below 0.
pub open spec fn is_finite_non_negative(x: Binary64) -> bool {
    x.is_finite_spec() && x.at_least(number(ZERO_BITS))
}

pub fn forgetting_factor_ok(rho: Binary64) -> (r: bool)
    ensures
        r == is_forgetting_factor(rho),
{
    rho.is_finite() && rho.gt(Binary64::zero()) && rho.lt(Binary64::one())
}

pub fn finite_non_negative_ok(x: Binary64) -> (r: bool)
    ensures
        r == is_finite_non_negative(x),
{
    x.is_finite() && x.ge(Binary64::zero())
}

/// Moves the average `s` towards the non-negative magnitude `x`.
pub fn blend_envelope(rho: Binary64, s: Binary64, x: Binary64) -> (r: Binary64)
    ensures
        r == blend(rho, s, x),
{
    let keep = rho.mul_rounded(s);
    let gain = Binary64::one().sub_rounded(rho);
    keep.add_rounded(gain.mul_rounded(x))
}

/// Advances one envelope by one residual.
pub fn advance_envelope(rho: Binary64, s: Binary64, residual: Binary64) -> (r: Binary64)
    ensures
        r == envelope_next(rho, s, residual),
{
    blend_envelope(rho, s, residual.abs())
}

/// Envelope of a single channel together with its forgetting factor.
#[derive(Clone, Copy, Debug, PartialEq)]
pub struct ResidualEnvelope {
    pub s: Binary64,
    pub rho: Binary64,
}

impl ResidualEnvelope {
    /// The rejection that `new` answers with, if any: `rho` is checked
    /// first, then `s0`.
    pub open spec fn rejection(rho: Binary64, s0: Binary64) -> Option<ConfigurationError> {
        if !is_forgetting_factor(rho) {
            Some(ConfigurationError::NotInUnitInterval { field: Field::Rho, index: None, bits: rho.bits })
        } else if !is_finite_non_negative(s0) {
            Some(ConfigurationError::NotFiniteNonNegative { field: Field::Envelope, index: None, bits: s0.bits })
        } else {
            None
        }
    }

    /// An envelope that starts at `s0` and forgets with factor `rho`.
    pub fn new(rho: Binary64, s0: Binary64) -> (r: Result<ResidualEnvelope, ConfigurationError>)
        ensures
            match r {
                Ok(env) => Self::rejection(rho, s0) is None && env.s == s0 && env.rho == rho,
                Err(e) => Self::rejection(rho, s0) == Some(e),
            },
    {
        if !forgetting_factor_ok(rho) {
            return Err(ConfigurationError::NotInUnitInterval { field: Field::Rho, index: None, bits: rho.bits });
        }
        if !finite_non_negative_ok(s0) {
            return Err(
                ConfigurationError::NotFiniteNonNegative { field: Field::Envelope, index: None, bits: s0.bits },
            );
        }
        Ok(ResidualEnvelope { s: s0, rho })
    }

    /// Takes one residual in and returns the new envelope. A residual that is
    /// not finite is refused and the envelope stays as it was.
    pub fn update(&mut self, residual: Binary64) -> (r: Result<Binary64, InputError>)
        ensures
            final(self).rho == old(self).rho,
            match r {
                Ok(s) => residual.is_finite_spec() && s == envelope_next(
                    old(self).rho,
                    old(self).s,
                    residual,
                ) && final(self).s == s,
                Err(e) => !residual.is_finite_spec() && e == (InputError::NotFinite { index: 0, bits: residual.bits })
                    && *final(self) == *old(self),
            },
    {
        if !residual.is_finite() {
            return Err(InputError::NotFinite { index: 0, bits: residual.bits });
        }
        self.s = advance_envelope(self.rho, self.s, residual);
        Ok(self.s)
    }

    /// The envelope with the trust it maps to under sensitivity `beta`.
    pub fn as_dsfb_stats(&self, beta: Binary64) -> (r: TrustStats)
        ensures
            r.residual_ema == self.s,
            r.weight == bounded_affine(beta, self.s),
    {
        TrustStats { residual_ema: self.s, weight: TrustWeight::weight(beta, self.s) }
    }
}

} // verus!
