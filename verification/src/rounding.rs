//! From numbers to whole numbers: rounding to the nearest, halves away from
//! zero, and rounding up; each held to the range of its integer type.
use vstd::prelude::*;
use vstd::arithmetic::div_mod::lemma_basic_div;
use vstd::arithmetic::div_mod::lemma_div_multiples_vanish;
use vstd::arithmetic::div_mod::lemma_div_multiples_vanish_quotient;
use vstd::arithmetic::div_mod::lemma_fundamental_div_mod;
use vstd::arithmetic::div_mod::lemma_small_mod;
use vstd::arithmetic::div_mod::lemma_truncate_middle;
use vstd::arithmetic::mul::lemma_mul_is_associative;
use vstd::arithmetic::power2::lemma2_to64;
use vstd::arithmetic::power2::lemma2_to64_rest;
use vstd::arithmetic::power2::lemma_pow2_adds;
use vstd::arithmetic::power2::lemma_pow2_pos;
use vstd::arithmetic::power2::lemma_pow2_strictly_increases;
use vstd::arithmetic::power2::lemma_pow2_unfold;
use vstd::arithmetic::power2::pow2;
use crate::binary64::Binary64;
use crate::binary64::FRACTION_SPAN;

verus! {

/// The number one in units of `2^-1074`.
pub open spec fn unit() -> nat {
    pow2(1074)
}

/// A magnitude taken apart.
#[derive(Clone, Copy, Debug)]
pub struct Parts {
    /// The whole part, unless it is `2^64` or more.
    pub whole: Option<u64>,
    /// The rest is a half or more.
    pub half_or_more: bool,
    /// There is a rest.
    pub has_fraction: bool,
}

impl Binary64 {
    /// The whole part of the magnitude.
    pub open spec fn whole_part(self) -> nat {
        self.scaled_magnitude() / unit()
    }

    /// What the magnitude has beyond its whole part, in units of
    /// `2^-1074`.
    pub open spec fn fraction_part(self) -> nat {
        self.scaled_magnitude() % unit()
    }

    /// The magnitude taken apart.
    pub open spec fn parts(self) -> Parts {
        Parts {
            whole: if self.whole_part() <= u64::MAX {
                Some(self.whole_part() as u64)
            } else {
                None
            },
            half_or_more: 2 * self.fraction_part() >= unit(),
            has_fraction: self.fraction_part() != 0,
        }
    }

    /// The whole number nearest to the magnitude, a half counting upwards.
    pub open spec fn nearest_whole(self) -> nat {
        if 2 * self.fraction_part() >= unit() {
            self.whole_part() + 1
        } else {
            self.whole_part()
        }
    }

    /// The least whole number that is not below the magnitude.
    pub open spec fn whole_above(self) -> nat {
        if self.fraction_part() != 0 {
            self.whole_part() + 1
        } else {
            self.whole_part()
        }
    }

    /// The number rounded to the nearest whole number, halves away from
    /// zero, and held to the range of `i32`; 0 for a NaN.
    pub open spec fn rounded_i32(self) -> i32 {
        if self.is_nan_spec() {
            0
        } else if self.sign_is_set() {
            if self.nearest_whole() >= 0x8000_0000 {
                i32::MIN
            } else {
                (-(self.nearest_whole() as int)) as i32
            }
        } else {
            if self.nearest_whole() > i32::MAX {
                i32::MAX
            } else {
                self.nearest_whole() as i32
            }
        }
    }

    /// The number rounded to the nearest whole number, halves away from
    /// zero, and held to the range of `usize`; 0 for a NaN and for what is
    /// negative.
    pub open spec fn rounded_usize(self) -> usize {
        if self.is_nan_spec() || self.sign_is_set() {
            0
        } else if self.nearest_whole() > usize::MAX {
            usize::MAX
        } else {
            self.nearest_whole() as usize
        }
    }

    /// The number rounded up to a whole number and held to the range of
    /// `usize`; 0 for a NaN and for what is negative.
    pub open spec fn ceiled_usize(self) -> usize {
        if self.is_nan_spec() || self.sign_is_set() {
            0
        } else if self.whole_above() > usize::MAX {
            usize::MAX
        } else {
            self.whole_above() as usize
        }
    }

    /// Takes the magnitude apart.
    pub fn split(self) -> (r: Parts)
        ensures
            r == self.parts(),
    {
        let magnitude = self.abs().bits;
        let field = magnitude / FRACTION_SPAN;
        let fraction = magnitude % FRACTION_SPAN;
        proof {
            lemma2_to64();
            lemma2_to64_rest();
            lemma_pow2_pos(1074);
            assert(self.magnitude_bits() == magnitude);
        }
        if field == 0 {
            proof {
                lemma_pow2_strictly_increases(53, 1074);
                lemma_basic_div(fraction as int, unit() as int);
                lemma_small_mod(fraction as nat, unit());
            }
            return Parts { whole: Some(0), half_or_more: false, has_fraction: fraction != 0 };
        }
        let significand = FRACTION_SPAN + fraction;
        let ghost scale = pow2((field - 1) as nat);
        proof {
            lemma_pow2_pos((field - 1) as nat);
            assert(self.scaled_magnitude() == significand * scale);
        }
        if field >= 1075 {
            let shift = field - 1075;
            proof {
                lemma_pow2_adds(shift as nat, 1074);
                lemma_pow2_pos(shift as nat);
                assert(significand * scale == (significand * pow2(shift as nat)) * unit()) by {
                    lemma_mul_is_associative(
                        significand as int,
                        pow2(shift as nat) as int,
                        unit() as int,
                    );
                }
                lemma_whole_multiple((significand * pow2(shift as nat)) as nat, unit());
            }
            if shift >= 12 {
                proof {
                    if shift > 12 {
                        lemma_pow2_strictly_increases(12, shift as nat);
                    }
                    assert(significand * pow2(shift as nat) >= 0x10000000000000 * 0x1000)
                        by (nonlinear_arith)
                        requires
                            significand >= 0x10000000000000,
                            pow2(shift as nat) >= 0x1000,
                    ;
                }
                return Parts { whole: None, half_or_more: false, has_fraction: false };
            }
            let mut power: u64 = 1;
            let mut i: u64 = 0;
            while i < shift
                invariant
                    i <= shift,
                    shift < 12,
                    power == pow2(i as nat),
                    power <= 0x800,
                decreases shift - i,
            {
                proof {
                    lemma_pow2_unfold((i + 1) as nat);
                    lemma2_to64();
                    if i + 1 < 11 {
                        lemma_pow2_strictly_increases((i + 1) as nat, 11);
                    }
                }
                power = power * 2;
                i += 1;
            }
            assert(significand * power <= u64::MAX) by (nonlinear_arith)
                requires
                    significand < 0x20000000000000,
                    power <= 0x800,
            ;
            return Parts {
                whole: Some(significand * power),
                half_or_more: false,
                has_fraction: false,
            };
        }
        let down = 1075 - field;
        proof {
            lemma_pow2_adds(down as nat, (field - 1) as nat);
            lemma_pow2_pos(down as nat);
        }
        if down >= 54 {
            proof {
                if down > 54 {
                    lemma_pow2_strictly_increases(54, down as nat);
                }
                let whole = pow2(down as nat);
                assert(unit() == whole * scale);
                assert(2 * (significand * scale) < whole * scale) by (nonlinear_arith)
                    requires
                        significand < 0x20000000000000,
                        whole >= 0x40000000000000,
                        scale > 0,
                ;
                assert(significand * scale > 0) by (nonlinear_arith)
                    requires
                        significand > 0,
                        scale > 0,
                ;
                lemma_basic_div((significand * scale) as int, unit() as int);
                lemma_small_mod((significand * scale) as nat, unit());
            }
            return Parts { whole: Some(0), half_or_more: false, has_fraction: true };
        }
        let mut power: u64 = 1;
        let mut i: u64 = 0;
        while i < down
            invariant
                i <= down,
                down < 54,
                power == pow2(i as nat),
                power <= 0x20000000000000,
            decreases down - i,
        {
            proof {
                lemma_pow2_unfold((i + 1) as nat);
                lemma2_to64_rest();
                if i + 1 < 53 {
                    lemma_pow2_strictly_increases((i + 1) as nat, 53);
                }
            }
            power = power * 2;
            i += 1;
        }
        let whole = significand / power;
        let rest = significand % power;
        proof {
            assert(unit() == power * scale);
            assert(significand * scale == scale * significand) by (nonlinear_arith);
            assert(power * scale == scale * power) by (nonlinear_arith);
            lemma_div_multiples_vanish_quotient(scale as int, significand as int, power as int);
            lemma_truncate_middle(significand as int, scale as int, power as int);
            assert(self.whole_part() == whole);
            assert(self.fraction_part() == scale * rest);
            assert((2 * (scale * rest) >= scale * power) <==> (2 * rest >= power))
                by (nonlinear_arith)
                requires
                    scale > 0,
            ;
            assert((scale * rest != 0) <==> (rest != 0)) by (nonlinear_arith)
                requires
                    scale > 0,
                    rest >= 0,
            ;
        }
        Parts { whole: Some(whole), half_or_more: rest >= power - rest, has_fraction: rest != 0 }
    }

    /// Rounds to the nearest whole number, halves away from zero, within
    /// the range of `i32`.
    pub fn round_to_i32(self) -> (r: i32)
        ensures
            r == self.rounded_i32(),
    {
        if self.is_nan() {
            return 0;
        }
        let parts = self.split();
        let negative = self.is_sign_negative();
        match parts.whole {
            None => if negative {
                i32::MIN
            } else {
                i32::MAX
            },
            Some(whole) => {
                if whole >= 0x8000_0000 {
                    if negative {
                        i32::MIN
                    } else {
                        i32::MAX
                    }
                } else {
                    let nearest: u64 = if parts.half_or_more {
                        whole + 1
                    } else {
                        whole
                    };
                    if negative {
                        if nearest >= 0x8000_0000 {
                            i32::MIN
                        } else {
                            -(nearest as i32)
                        }
                    } else if nearest > 0x7FFF_FFFF {
                        i32::MAX
                    } else {
                        nearest as i32
                    }
                }
            },
        }
    }

    /// Rounds to the nearest whole number, halves away from zero, within
    /// the range of `usize`.
    pub fn round_to_usize(self) -> (r: usize)
        ensures
            r == self.rounded_usize(),
    {
        if self.is_nan() || self.is_sign_negative() {
            return 0;
        }
        let parts = self.split();
        match parts.whole {
            None => usize::MAX,
            Some(whole) => {
                if whole >= usize::MAX as u64 {
                    usize::MAX
                } else if parts.half_or_more {
                    (whole + 1) as usize
                } else {
                    whole as usize
                }
            },
        }
    }

    /// Rounds up to a whole number within the range of `usize`.
    pub fn ceil_to_usize(self) -> (r: usize)
        ensures
            r == self.ceiled_usize(),
    {
        if self.is_nan() || self.is_sign_negative() {
            return 0;
        }
        let parts = self.split();
        match parts.whole {
            None => usize::MAX,
            Some(whole) => {
                if whole >= usize::MAX as u64 {
                    usize::MAX
                } else if parts.has_fraction {
                    (whole + 1) as usize
                } else {
                    whole as usize
                }
            },
        }
    }
}

/// A multiple of the unit has that many wholes and no rest.
proof fn lemma_whole_multiple(count: nat, unit: nat)
    requires
        unit > 0,
    ensures
        (count * unit) / unit == count,
        (count * unit) % unit == 0,
{
    lemma_div_multiples_vanish(count as int, unit as int);
    lemma_fundamental_div_mod((count * unit) as int, unit as int);
    assert(count * unit == unit * count) by (nonlinear_arith);
}

} // verus!
