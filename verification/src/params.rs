//! Parameters of the kinematic observer.
use vstd::prelude::*;
use crate::binary64::Binary64;
use crate::binary64::number;

verus! {

/// Pattern of `0.5`, the default position gain.
pub const DEFAULT_K_PHI_BITS: u64 = 0x3FE0_0000_0000_0000;

/// Pattern of `0.1`, the default drift gain.
pub const DEFAULT_K_OMEGA_BITS: u64 = 0x3FB9_9999_9999_999A;

/// Pattern of `0.01`, the default slew gain.
pub const DEFAULT_K_ALPHA_BITS: u64 = 0x3F84_7AE1_47AE_147B;

/// Pattern of `0.95`, the default forgetting factor.
pub const DEFAULT_RHO_BITS: u64 = 0x3FEE_6666_6666_6666;

/// Pattern of `0.1`, the default trust softness.
pub const DEFAULT_SIGMA0_BITS: u64 = 0x3FB9_9999_9999_999A;

/// Gains, forgetting factor and trust softness of the kinematic observer.
#[derive(Clone, Copy, Debug, PartialEq)]
pub struct DsfbParams {
    /// Gain of the position correction.
    pub k_phi: Binary64,
    /// Gain of the drift correction.
    pub k_omega: Binary64,
    /// Gain of the slew correction.
    pub k_alpha: Binary64,
    /// Forgetting factor of the envelopes, `0 < rho < 1`.
    pub rho: Binary64,
    /// Trust softness, above 0.
    pub sigma0: Binary64,
}

impl DsfbParams {
    pub fn new(
        k_phi: Binary64,
        k_omega: Binary64,
        k_alpha: Binary64,
        rho: Binary64,
        sigma0: Binary64,
    ) -> (r: DsfbParams)
        ensures
            r == (DsfbParams { k_phi, k_omega, k_alpha, rho, sigma0 }),
    {
        DsfbParams { k_phi, k_omega, k_alpha, rho, sigma0 }
    }

    /// The parameters of `default_params`: gains 0.5, 0.1 and 0.01,
    /// forgetting factor 0.95, softness 0.1.
    pub open spec fn defaults() -> DsfbParams {
        DsfbParams {
            k_phi: number(DEFAULT_K_PHI_BITS),
            k_omega: number(DEFAULT_K_OMEGA_BITS),
            k_alpha: number(DEFAULT_K_ALPHA_BITS),
            rho: number(DEFAULT_RHO_BITS),
            sigma0: number(DEFAULT_SIGMA0_BITS),
        }
    }

    /// Parameters that suit a basic simulation.
    pub fn default_params() -> (r: DsfbParams)
        ensures
            r == Self::defaults(),
    {
        DsfbParams {
            k_phi: Binary64::from_bits(DEFAULT_K_PHI_BITS),
            k_omega: Binary64::from_bits(DEFAULT_K_OMEGA_BITS),
            k_alpha: Binary64::from_bits(DEFAULT_K_ALPHA_BITS),
            rho: Binary64::from_bits(DEFAULT_RHO_BITS),
            sigma0: Binary64::from_bits(DEFAULT_SIGMA0_BITS),
        }
    }
}

impl Default for DsfbParams {
    fn default() -> (r: DsfbParams)
        ensures
            r == DsfbParams::defaults(),
    {
        DsfbParams::default_params()
    }
}

} // verus!
