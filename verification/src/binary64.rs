//! IEEE 754 binary64 numbers, carried as their 64-bit patterns.
//!
//! Classification, sign handling and ordering are plain integer logic on the
//! pattern and are proved here. Rounded arithmetic (`plus`, `times`, `over`,
//! `root`) is delegated to software implementations of the standard; each
//! result is known to the verifier only as a fixed function of the operand
//! patterns. The root is delegated for positive normal numbers only: the
//! roots of zeros, infinities, NaNs and negative numbers are settled here,
//! and a subnormal number is scaled into the normal range first.
use vstd::prelude::*;
use vstd::arithmetic::power2::pow2;
use vstd::arithmetic::power2::lemma_pow2_unfold;
use vstd::arithmetic::power2::lemma_pow2_adds;
use vstd::std_specs::cmp::PartialEqSpecImpl;
use const_soft_float::soft_f64::SoftF64;
use rustc_apfloat::ieee::Double;
use rustc_apfloat::Float;

verus! {

/// Lowest pattern with the sign bit set.
pub const SIGN_BIT: u64 = 0x8000_0000_0000_0000;

/// Magnitude pattern of infinity; every larger magnitude is a NaN.
pub const INFINITY_BITS: u64 = 0x7FF0_0000_0000_0000;

/// Weight of the exponent field inside a pattern, `2^52`.
pub const FRACTION_SPAN: u64 = 0x0010_0000_0000_0000;

/// Pattern of `+0.0`.
pub const ZERO_BITS: u64 = 0;

/// Pattern of `1.0`.
pub const ONE_BITS: u64 = 0x3FF0_0000_0000_0000;

/// Pattern of `2^-537`, the root of the unit `2^-1074` in which subnormal
/// numbers are counted.
pub const ROOT_OF_UNIT_BITS: u64 = 0x1E60_0000_0000_0000;

/// Pattern of the NaN that stands for the root of a negative number.
pub const ROOTLESS_BITS: u64 = 0x7FF8_0000_0000_0000;

/// A binary64 number, identified by its bit pattern.
#[derive(Clone, Copy, Debug)]
pub struct Binary64 {
    pub bits: u64,
}

impl PartialEq for Binary64 {
    /// Equality of the numbers as the standard has it: a NaN equals
    /// nothing, not even itself, and the two zeros are equal.
    fn eq(&self, other: &Binary64) -> (r: bool) {
        !self.is_nan() && !other.is_nan() && (self.bits == other.bits || (self.is_zero()
            && other.is_zero()))
    }
}

impl PartialEqSpecImpl for Binary64 {
    open spec fn obeys_eq_spec() -> bool {
        true
    }

    open spec fn eq_spec(&self, other: &Binary64) -> bool {
        !self.is_nan_spec() && !other.is_nan_spec() && (self.bits == other.bits || (
        self.is_zero_spec() && other.is_zero_spec()))
    }
}

/// Pattern of the correctly rounded (nearest, ties to even) sum of the two
/// numbers whose patterns are `a` and `b`.
pub uninterp spec fn sum_bits(a: u64, b: u64) -> u64;

/// Pattern of the correctly rounded product of the numbers with patterns
/// `a` and `b`.
pub uninterp spec fn product_bits(a: u64, b: u64) -> u64;

/// Pattern of the correctly rounded quotient of the number with pattern `a`
/// by the number with pattern `b`.
pub uninterp spec fn quotient_bits(a: u64, b: u64) -> u64;

/// Pattern of the correctly rounded square root of the number with pattern
/// `a`.
pub uninterp spec fn root_bits(a: u64) -> u64;

/// The number with the given pattern.
pub open spec fn number(bits: u64) -> Binary64 {
    Binary64 { bits }
}

/// Adds the two numbers with `rustc_apfloat`'s `+` on `ieee::Double`, which
/// rounds to nearest, ties to even. Trusted: the operation is a pure
/// function of its operands, total on all patterns; its result is given the
/// name `sum_bits`.
#[verifier::external_body]
fn soft_add(a: u64, b: u64) -> (r: u64)
    ensures
        r == sum_bits(a, b),
{
    (Double::from_bits(a as u128) + Double::from_bits(b as u128)).value.to_bits() as u64
}

/// Multiplies the two numbers with `rustc_apfloat`'s `*` on `ieee::Double`,
/// which rounds to nearest, ties to even. Trusted: the operation is a pure
/// function of its operands, total on all patterns; its result is given the
/// name `product_bits`.
#[verifier::external_body]
fn soft_mul(a: u64, b: u64) -> (r: u64)
    ensures
        r == product_bits(a, b),
{
    (Double::from_bits(a as u128) * Double::from_bits(b as u128)).value.to_bits() as u64
}

/// Divides the first number by the second with `rustc_apfloat`'s `/` on
/// `ieee::Double`, which rounds to nearest, ties to even. Trusted: the
/// operation is a pure function of its operands, total on all patterns (a
/// zero divisor yields an infinity or a NaN); its result is given the name
/// `quotient_bits`.
#[verifier::external_body]
fn soft_div(a: u64, b: u64) -> (r: u64)
    ensures
        r == quotient_bits(a, b),
{
    (Double::from_bits(a as u128) / Double::from_bits(b as u128)).value.to_bits() as u64
}

/// Calls `const_soft_float::soft_f64::SoftF64::sqrt` on the pattern of a
/// positive normal number. Trusted: on such a pattern the routine is a pure
/// function of its operand and returns; its result is given the name
/// `root_bits`. Every other pattern is left out. Of a subnormal number the
/// routine, when it normalises it, shifts a machine word by up to 32
/// places, which is the whole word where words have 32 bits; zeros,
/// negative numbers, infinities and NaNs it hands to its own arithmetic,
/// which this library does not rest on.
#[verifier::external_body]
fn soft_sqrt(a: u64) -> (r: u64)
    requires
        FRACTION_SPAN <= a < INFINITY_BITS,
    ensures
        r == root_bits(a),
{
    SoftF64::from_bits(a).sqrt().to_bits()
}

impl Binary64 {
    /// The pattern without its sign bit.
    pub open spec fn magnitude_bits(self) -> u64 {
        if self.bits >= SIGN_BIT {
            (self.bits - SIGN_BIT) as u64
        } else {
            self.bits
        }
    }

    /// The sign bit is set (this holds of `-0.0` and of some NaNs too).
    pub open spec fn sign_is_set(self) -> bool {
        self.bits >= SIGN_BIT
    }

    pub open spec fn is_nan_spec(self) -> bool {
        self.magnitude_bits() > INFINITY_BITS
    }

    /// Zero, subnormal or normal: neither infinite nor NaN.
    pub open spec fn is_finite_spec(self) -> bool {
        self.magnitude_bits() < INFINITY_BITS
    }

    /// Position of a non-NaN number on the number line, as an integer that
    /// grows with the number: the magnitude pattern, negated under a set sign
    /// bit. Both zeros sit at 0.
    pub open spec fn rank(self) -> int {
        if self.sign_is_set() {
            -(self.magnitude_bits() as int)
        } else {
            self.magnitude_bits() as int
        }
    }

    /// IEEE `self < other`: false as soon as either side is a NaN.
    pub open spec fn below(self, other: Binary64) -> bool {
        !self.is_nan_spec() && !other.is_nan_spec() && self.rank() < other.rank()
    }

    /// IEEE `self <= other`: false as soon as either side is a NaN.
    pub open spec fn at_most(self, other: Binary64) -> bool {
        !self.is_nan_spec() && !other.is_nan_spec() && self.rank() <= other.rank()
    }

    /// `+0.0` or `-0.0`.
    pub open spec fn is_zero_spec(self) -> bool {
        self.magnitude_bits() == 0
    }

    /// IEEE `self > other`.
    pub open spec fn exceeds(self, other: Binary64) -> bool {
        other.below(self)
    }

    /// IEEE `self >= other`.
    pub open spec fn at_least(self, other: Binary64) -> bool {
        other.at_most(self)
    }

    /// The number with the sign bit cleared.
    pub open spec fn magnitude(self) -> Binary64 {
        Binary64 { bits: self.magnitude_bits() }
    }

    /// The number with the sign bit flipped.
    pub open spec fn negated(self) -> Binary64 {
        if self.bits >= SIGN_BIT {
            Binary64 { bits: (self.bits - SIGN_BIT) as u64 }
        } else {
            Binary64 { bits: (self.bits + SIGN_BIT) as u64 }
        }
    }

    /// Rounded sum.
    pub open spec fn plus(self, other: Binary64) -> Binary64 {
        Binary64 { bits: sum_bits(self.bits, other.bits) }
    }

    /// Rounded difference: the sum with the negated subtrahend.
    pub open spec fn minus(self, other: Binary64) -> Binary64 {
        self.plus(other.negated())
    }

    /// Rounded product.
    pub open spec fn times(self, other: Binary64) -> Binary64 {
        Binary64 { bits: product_bits(self.bits, other.bits) }
    }

    /// Rounded quotient.
    pub open spec fn over(self, other: Binary64) -> Binary64 {
        Binary64 { bits: quotient_bits(self.bits, other.bits) }
    }

    /// Whether the number is positive and below the least normal number,
    /// zero left out.
    pub open spec fn is_positive_subnormal(self) -> bool {
        0 < self.bits < FRACTION_SPAN
    }

    /// Rounded square root. A NaN, a zero of either sign and `+infinity`
    /// are their own roots, and the root of any other negative number is a
    /// NaN. The root of a positive subnormal number, which is `bits` units
    /// of `2^-1074`, is taken as the root of the whole number `bits` times
    /// `2^-537`; the scaling is exact, so the result is the rounded root all
    /// the same.
    pub open spec fn root(self) -> Binary64 {
        if self.is_nan_spec() || self.is_zero_spec() || self.bits == INFINITY_BITS {
            self
        } else if self.sign_is_set() {
            number(ROOTLESS_BITS)
        } else if self.is_positive_subnormal() {
            number(root_bits(count_number(self.bits as nat).bits)).times(
                number(ROOT_OF_UNIT_BITS),
            )
        } else {
            number(root_bits(self.bits))
        }
    }

    pub fn from_bits(bits: u64) -> (r: Binary64)
        ensures
            r.bits == bits,
    {
        Binary64 { bits }
    }

    pub fn to_bits(self) -> (r: u64)
        ensures
            r == self.bits,
    {
        self.bits
    }

    /// `+0.0`.
    pub fn zero() -> (r: Binary64)
        ensures
            r == number(ZERO_BITS),
    {
        Binary64 { bits: ZERO_BITS }
    }

    /// `1.0`.
    pub fn one() -> (r: Binary64)
        ensures
            r == number(ONE_BITS),
    {
        Binary64 { bits: ONE_BITS }
    }

    pub fn is_nan(self) -> (r: bool)
        ensures
            r == self.is_nan_spec(),
    {
        self.abs().bits > INFINITY_BITS
    }

    pub fn is_finite(self) -> (r: bool)
        ensures
            r == self.is_finite_spec(),
    {
        self.abs().bits < INFINITY_BITS
    }

    pub fn is_zero(self) -> (r: bool)
        ensures
            r == self.is_zero_spec(),
    {
        self.abs().bits == 0
    }

    pub fn is_sign_negative(self) -> (r: bool)
        ensures
            r == self.sign_is_set(),
    {
        self.bits >= SIGN_BIT
    }

    /// Absolute value: clears the sign bit.
    pub fn abs(self) -> (r: Binary64)
        ensures
            r == self.magnitude(),
    {
        if self.bits >= SIGN_BIT {
            Binary64 { bits: self.bits - SIGN_BIT }
        } else {
            self
        }
    }

    /// Negation: flips the sign bit.
    pub fn neg(self) -> (r: Binary64)
        ensures
            r == self.negated(),
    {
        if self.bits >= SIGN_BIT {
            Binary64 { bits: self.bits - SIGN_BIT }
        } else {
            Binary64 { bits: self.bits + SIGN_BIT }
        }
    }

    pub fn lt(self, other: Binary64) -> (r: bool)
        ensures
            r == self.below(other),
    {
        if self.is_nan() || other.is_nan() {
            return false;
        }
        let a = self.abs().bits;
        let b = other.abs().bits;
        if self.is_sign_negative() {
            if other.is_sign_negative() {
                b < a
            } else {
                a > 0 || b > 0
            }
        } else {
            !other.is_sign_negative() && a < b
        }
    }

    pub fn le(self, other: Binary64) -> (r: bool)
        ensures
            r == self.at_most(other),
    {
        if self.is_nan() || other.is_nan() {
            return false;
        }
        !other.lt(self)
    }

    pub fn gt(self, other: Binary64) -> (r: bool)
        ensures
            r == self.exceeds(other),
    {
        other.lt(self)
    }

    pub fn ge(self, other: Binary64) -> (r: bool)
        ensures
            r == self.at_least(other),
    {
        other.le(self)
    }

    /// Rounded sum of the two numbers.
    pub fn add_rounded(self, other: Binary64) -> (r: Binary64)
        ensures
            r == self.plus(other),
    {
        Binary64 { bits: soft_add(self.bits, other.bits) }
    }

    /// Rounded difference of the two numbers.
    pub fn sub_rounded(self, other: Binary64) -> (r: Binary64)
        ensures
            r == self.minus(other),
    {
        self.add_rounded(other.neg())
    }

    /// Rounded product of the two numbers.
    pub fn mul_rounded(self, other: Binary64) -> (r: Binary64)
        ensures
            r == self.times(other),
    {
        Binary64 { bits: soft_mul(self.bits, other.bits) }
    }

    /// Rounded square root. Total: the root of a negative number is a NaN.
    pub fn sqrt_rounded(self) -> (r: Binary64)
        ensures
            r == self.root(),
    {
        if self.is_nan() || self.is_zero() || self.bits == INFINITY_BITS {
            self
        } else if self.is_sign_negative() {
            Binary64 { bits: ROOTLESS_BITS }
        } else if self.bits < FRACTION_SPAN {
            let whole = Binary64::from_u64(self.bits);
            proof {
                lemma_count_is_normal(self.bits as nat);
            }
            Binary64 { bits: soft_sqrt(whole.bits) }.mul_rounded(
                Binary64 { bits: ROOT_OF_UNIT_BITS },
            )
        } else {
            Binary64 { bits: soft_sqrt(self.bits) }
        }
    }

    /// Rounded quotient of the two numbers. Total: dividing by zero gives an
    /// infinity or a NaN, as the standard prescribes.
    pub fn div_rounded(self, other: Binary64) -> (r: Binary64)
        ensures
            r == self.over(other),
    {
        Binary64 { bits: soft_div(self.bits, other.bits) }
    }
}

/// Largest count below which every whole number has a pattern of its own,
/// `2^53`.
pub const EXACT_COUNT_LIMIT: u64 = 0x0020_0000_0000_0000;

/// `2^32`, the split point of the two halves of a large count.
pub const HALF_WORD: u64 = 0x1_0000_0000;

/// Pattern of the non-negative number `significand * 2^(field - 1075)`,
/// found by doubling the significand until its leading bit reaches the
/// hidden-bit position. A zero significand gives `+0.0`.
pub open spec fn normalized_pattern(significand: nat, field: nat) -> u64
    decreases field,
{
    if significand == 0 {
        0
    } else if significand >= FRACTION_SPAN || field == 0 {
        (field * FRACTION_SPAN + significand - FRACTION_SPAN) as u64
    } else {
        normalized_pattern(2 * significand, (field - 1) as nat)
    }
}

/// The number that a count converts to. Below `2^53` the conversion is
/// exact. From there on the count is split at bit 32 into two exactly
/// representable parts whose rounded sum is taken, which is the count
/// rounded to nearest, ties to even.
pub open spec fn count_number(n: nat) -> Binary64 {
    if n < EXACT_COUNT_LIMIT {
        number(normalized_pattern(n, 1075))
    } else {
        number(normalized_pattern(n / (HALF_WORD as nat), 1107)).plus(
            number(normalized_pattern(n % (HALF_WORD as nat), 1075)),
        )
    }
}

/// Doubles `significand` up to the hidden-bit position, lowering the
/// exponent field in step.
fn normalize(significand: u64, field: u64) -> (r: u64)
    requires
        significand < EXACT_COUNT_LIMIT,
        53 <= field < 2047,
    ensures
        r == normalized_pattern(significand as nat, field as nat),
{
    if significand == 0 {
        return 0;
    }
    let mut sig: u64 = significand;
    let mut fld: u64 = field;
    proof {
        vstd::arithmetic::power2::lemma2_to64();
    }
    while sig < FRACTION_SPAN
        invariant
            0 < sig < EXACT_COUNT_LIMIT,
            53 <= field < 2047,
            fld <= field,
            sig >= pow2((field - fld) as nat),
            field - fld <= 52,
            normalized_pattern(sig as nat, fld as nat) == normalized_pattern(
                significand as nat,
                field as nat,
            ),
        decreases EXACT_COUNT_LIMIT - sig,
    {
        proof {
            vstd::arithmetic::power2::lemma2_to64_rest();
            lemma_pow2_unfold((field - fld + 1) as nat);
        }
        sig = sig * 2;
        fld = fld - 1;
    }
    fld * FRACTION_SPAN + (sig - FRACTION_SPAN)
}

impl Binary64 {
    /// Magnitude of a finite number, counted in units of `2^-1074` (the
    /// smallest positive number).
    pub open spec fn scaled_magnitude(self) -> nat {
        let field = self.magnitude_bits() / FRACTION_SPAN;
        let fraction = self.magnitude_bits() % FRACTION_SPAN;
        if field == 0 {
            fraction as nat
        } else {
            ((FRACTION_SPAN + fraction) * pow2((field - 1) as nat)) as nat
        }
    }

    /// Converts a count to the nearest number (ties to even).
    pub fn from_count(n: usize) -> (r: Binary64)
        ensures
            r == count_number(n as nat),
    {
        Binary64::from_u64(n as u64)
    }

    /// Converts a whole number to the nearest number (ties to even).
    pub fn from_u64(wide: u64) -> (r: Binary64)
        ensures
            r == count_number(wide as nat),
    {
        if wide < EXACT_COUNT_LIMIT {
            Binary64 { bits: normalize(wide, 1075) }
        } else {
            let high = Binary64 { bits: normalize(wide / HALF_WORD, 1107) };
            let low = Binary64 { bits: normalize(wide % HALF_WORD, 1075) };
            high.add_rounded(low)
        }
    }
}

/// A count below `2^53` converts without rounding: the result is finite,
/// non-negative and its magnitude is the count itself.
pub proof fn law_small_counts_are_exact(n: nat)
    requires
        n < EXACT_COUNT_LIMIT,
    ensures
        count_number(n).is_finite_spec(),
        !count_number(n).sign_is_set(),
        count_number(n).scaled_magnitude() == n * pow2(1074),
{
    lemma_normalized_value(n, 1075);
}

/// A positive count below `2^53` converts to a positive normal number.
proof fn lemma_count_is_normal(n: nat)
    requires
        0 < n < EXACT_COUNT_LIMIT,
    ensures
        FRACTION_SPAN <= count_number(n).bits < INFINITY_BITS,
{
    vstd::arithmetic::power2::lemma2_to64();
    lemma_doubled_up_is_normal(n, 1075, 0);
}

/// Induction behind `lemma_count_is_normal`; `done` counts the doublings
/// already made.
proof fn lemma_doubled_up_is_normal(significand: nat, field: nat, done: nat)
    requires
        0 < significand < EXACT_COUNT_LIMIT,
        1 <= field < 2047,
        done <= 52,
        field + done >= 53,
        significand >= pow2(done),
    ensures
        FRACTION_SPAN <= normalized_pattern(significand, field) < INFINITY_BITS,
    decreases field,
{
    if significand >= FRACTION_SPAN {
        assert(field * FRACTION_SPAN + significand - FRACTION_SPAN < INFINITY_BITS);
        assert(field * FRACTION_SPAN + significand - FRACTION_SPAN >= FRACTION_SPAN);
    } else {
        vstd::arithmetic::power2::lemma2_to64_rest();
        lemma_pow2_unfold(done + 1);
        lemma_doubled_up_is_normal(2 * significand, (field - 1) as nat, done + 1);
    }
}

/// Value of a normalised pattern: `significand * 2^(field - 1)` units.
proof fn lemma_normalized_value(significand: nat, field: nat)
    requires
        significand < EXACT_COUNT_LIMIT,
        53 <= field < 2047,
    ensures
        number(normalized_pattern(significand, field)).is_finite_spec(),
        !number(normalized_pattern(significand, field)).sign_is_set(),
        number(normalized_pattern(significand, field)).scaled_magnitude() == significand * pow2(
            (field - 1) as nat,
        ),
{
    if significand == 0 {
        assert(0 * pow2((field - 1) as nat) == 0) by (nonlinear_arith);
    } else {
        vstd::arithmetic::power2::lemma2_to64();
        lemma_normalized_value_from(significand, field, 0);
    }
}

/// Induction behind `lemma_normalized_value`; `done` counts the doublings
/// already made.
proof fn lemma_normalized_value_from(significand: nat, field: nat, done: nat)
    requires
        0 < significand < EXACT_COUNT_LIMIT,
        1 <= field < 2047,
        done <= 52,
        field + done >= 53,
        significand >= pow2(done),
    ensures
        number(normalized_pattern(significand, field)).is_finite_spec(),
        !number(normalized_pattern(significand, field)).sign_is_set(),
        number(normalized_pattern(significand, field)).scaled_magnitude() == significand * pow2(
            (field - 1) as nat,
        ),
    decreases field,
{
    if significand >= FRACTION_SPAN {
        let bits = (field * FRACTION_SPAN + significand - FRACTION_SPAN) as u64;
        assert(field * FRACTION_SPAN + significand - FRACTION_SPAN < INFINITY_BITS);
        assert(bits / FRACTION_SPAN == field);
        assert(bits % FRACTION_SPAN == significand - FRACTION_SPAN);
    } else {
        vstd::arithmetic::power2::lemma2_to64_rest();
        lemma_pow2_unfold(done + 1);
        lemma_normalized_value_from(2 * significand, (field - 1) as nat, done + 1);
        lemma_pow2_unfold((field - 1) as nat);
        let lower = pow2((field - 2) as nat);
        assert((2 * significand) * lower == significand * (2 * lower)) by (nonlinear_arith);
    }
}

/// The magnitude, in units of `2^-1074`, of the number whose pattern
/// without sign is `bits`.
pub open spec fn magnitude_units(bits: u64) -> nat {
    Binary64 { bits }.scaled_magnitude()
}

/// A larger magnitude pattern stands for a larger magnitude.
pub proof fn lemma_magnitude_grows_with_pattern(low: u64, high: u64)
    requires
        low < high < SIGN_BIT,
    ensures
        magnitude_units(low) < magnitude_units(high),
{
    let e1 = low / FRACTION_SPAN;
    let f1 = low % FRACTION_SPAN;
    let e2 = high / FRACTION_SPAN;
    let f2 = high % FRACTION_SPAN;
    assert(e1 <= e2);
    if e1 == e2 {
        if e1 > 0 {
            let unit = pow2((e1 - 1) as nat);
            vstd::arithmetic::power2::lemma_pow2_pos((e1 - 1) as nat);
            assert((FRACTION_SPAN + f1) * unit < (FRACTION_SPAN + f2) * unit) by (nonlinear_arith)
                requires
                    f1 < f2,
                    unit > 0,
            ;
        }
    } else {
        let upper = pow2((e2 - 1) as nat);
        vstd::arithmetic::power2::lemma_pow2_pos((e2 - 1) as nat);
        assert(FRACTION_SPAN * upper <= (FRACTION_SPAN + f2) * upper) by (nonlinear_arith)
            requires
                f2 >= 0,
                upper > 0,
        ;
        if e1 == 0 {
            assert(FRACTION_SPAN * 1 <= FRACTION_SPAN * upper) by (nonlinear_arith)
                requires
                    upper >= 1,
            ;
        } else {
            let lower = pow2((e1 - 1) as nat);
            vstd::arithmetic::power2::lemma_pow2_pos((e1 - 1) as nat);
            lemma_pow2_unfold(e1 as nat);
            if e1 < e2 - 1 {
                vstd::arithmetic::power2::lemma_pow2_strictly_increases(
                    e1 as nat,
                    (e2 - 1) as nat,
                );
            }
            assert(pow2(e1 as nat) <= upper);
            assert((FRACTION_SPAN + f1) * lower < FRACTION_SPAN * upper) by (nonlinear_arith)
                requires
                    0 <= f1 < FRACTION_SPAN,
                    lower > 0,
                    2 * lower <= upper,
            ;
        }
    }
}

impl Binary64 {
    /// The value of a number that is not a NaN, in units of `2^-1074`;
    /// an infinity counts as the power of two beyond the largest finite
    /// number.
    pub open spec fn scaled_value(self) -> int {
        if self.sign_is_set() {
            -(self.scaled_magnitude() as int)
        } else {
            self.scaled_magnitude() as int
        }
    }
}

/// The order of the ranks is the order of the values: of two numbers that
/// are not NaN, one lies below the other exactly if its value is smaller.
pub proof fn lemma_rank_orders_by_value(a: Binary64, b: Binary64)
    requires
        !a.is_nan_spec(),
        !b.is_nan_spec(),
    ensures
        a.below(b) <==> a.scaled_value() < b.scaled_value(),
        a.at_most(b) <==> a.scaled_value() <= b.scaled_value(),
        a.rank() == b.rank() <==> a.scaled_value() == b.scaled_value(),
{
    let ma = a.magnitude_bits();
    let mb = b.magnitude_bits();
    assert(a.scaled_magnitude() == magnitude_units(ma)) by {
        assert(Binary64 { bits: ma }.magnitude_bits() == ma);
    }
    assert(b.scaled_magnitude() == magnitude_units(mb)) by {
        assert(Binary64 { bits: mb }.magnitude_bits() == mb);
    }
    if ma < mb {
        lemma_magnitude_grows_with_pattern(ma, mb);
    } else if mb < ma {
        lemma_magnitude_grows_with_pattern(mb, ma);
    }
    if ma > 0 {
        lemma_magnitude_grows_with_pattern(0, ma);
    }
    if mb > 0 {
        lemma_magnitude_grows_with_pattern(0, mb);
    }
    assert(magnitude_units(0) == 0);
}

/// `1.0` is the number one: its magnitude is `2^1074` units.
pub proof fn lemma_one_is_one()
    ensures
        number(ONE_BITS).scaled_value() == pow2(1074),
        number(ZERO_BITS).scaled_value() == 0,
{
    assert(ONE_BITS / FRACTION_SPAN == 1023 && ONE_BITS % FRACTION_SPAN == 0);
    lemma_pow2_adds(52, 1022);
    vstd::arithmetic::power2::lemma2_to64_rest();
}

} // verus!
