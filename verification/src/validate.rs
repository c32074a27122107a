//! Checks on configuration parameters and inputs. Each check names the
//! first offending entry in its rejection.
use vstd::prelude::*;
use crate::binary64::Binary64;
use crate::envelope::finite_non_negative_ok;
use crate::envelope::forgetting_factor_ok;
use crate::envelope::is_finite_non_negative;
use crate::envelope::is_forgetting_factor;
use crate::error::ConfigurationError;
use crate::error::Field;
use crate::error::InputError;

verus! {

/// Index of the first entry of `xs` that `bad` holds of, if there is one.
pub open spec fn first_index_where<T>(xs: Seq<T>, bad: spec_fn(T) -> bool) -> Option<usize>
    decreases xs.len(),
{
    if xs.len() == 0 {
        None
    } else {
        match first_index_where(xs.drop_last(), bad) {
            Some(i) => Some(i),
            None => if bad(xs.last()) {
                Some((xs.len() - 1) as usize)
            } else {
                None
            },
        }
    }
}

/// What `first_index_where` returns: the least index whose entry is bad, or
/// `None` where no entry is.
pub proof fn lemma_first_index_where<T>(xs: Seq<T>, bad: spec_fn(T) -> bool)
    requires
        xs.len() <= usize::MAX,
    ensures
        match first_index_where(xs, bad) {
            Some(i) => i < xs.len() && bad(xs[i as int]) && forall|j: int|
                0 <= j < i ==> !bad(#[trigger] xs[j]),
            None => forall|j: int| 0 <= j < xs.len() ==> !bad(#[trigger] xs[j]),
        },
    decreases xs.len(),
{
    if xs.len() > 0 {
        let front = xs.drop_last();
        lemma_first_index_where(front, bad);
        assert(forall|j: int| 0 <= j < front.len() ==> front[j] == xs[j]);
        match first_index_where(front, bad) {
            Some(i) => {
                assert(front[i as int] == xs[i as int]);
            },
            None => {
                assert forall|j: int| 0 <= j < xs.len() - 1 implies !bad(#[trigger] xs[j]) by {
                    assert(front[j] == xs[j]);
                }
            },
        }
    }
}

/// An entry that is bad while all before it are good is the first bad one.
pub proof fn lemma_first_index_is<T>(xs: Seq<T>, bad: spec_fn(T) -> bool, i: usize)
    requires
        xs.len() <= usize::MAX,
        i < xs.len(),
        bad(xs[i as int]),
        forall|j: int| 0 <= j < i ==> !bad(#[trigger] xs[j]),
    ensures
        first_index_where(xs, bad) == Some(i),
{
    lemma_first_index_where(xs, bad);
}

/// Where every entry is good there is no first bad one.
pub proof fn lemma_first_index_none<T>(xs: Seq<T>, bad: spec_fn(T) -> bool)
    requires
        xs.len() <= usize::MAX,
        forall|j: int| 0 <= j < xs.len() ==> !bad(#[trigger] xs[j]),
    ensures
        first_index_where(xs, bad) is None,
{
    lemma_first_index_where(xs, bad);
}

/// What is asked of each entry of a vector.
#[derive(Clone, Copy, Debug, PartialEq, Eq, Structural)]
pub enum Rule {
    /// Neither infinite nor NaN.
    Finite,
    /// Finite and strictly between 0 and 1.
    ForgettingFactor,
    /// Finite and not below 0.
    FiniteNonNegative,
}

impl Rule {
    pub open spec fn admits(self, x: Binary64) -> bool {
        match self {
            Rule::Finite => x.is_finite_spec(),
            Rule::ForgettingFactor => is_forgetting_factor(x),
            Rule::FiniteNonNegative => is_finite_non_negative(x),
        }
    }

    /// The entries that the rule refuses.
    pub open spec fn refuses(self) -> spec_fn(Binary64) -> bool {
        |x: Binary64| !self.admits(x)
    }

    pub fn check(self, x: Binary64) -> (r: bool)
        ensures
            r == self.admits(x),
    {
        match self {
            Rule::Finite => x.is_finite(),
            Rule::ForgettingFactor => forgetting_factor_ok(x),
            Rule::FiniteNonNegative => finite_non_negative_ok(x),
        }
    }
}

/// Index of the first entry that breaks `rule`.
pub open spec fn first_violation(xs: Seq<Binary64>, rule: Rule) -> Option<usize> {
    first_index_where(xs, rule.refuses())
}

/// Finds the first entry that breaks `rule`.
pub fn find_violation(xs: &Vec<Binary64>, rule: Rule) -> (r: Option<usize>)
    ensures
        r == first_violation(xs@, rule),
        r matches Some(i) ==> i < xs.len(),
{
    let mut i: usize = 0;
    while i < xs.len()
        invariant
            i <= xs.len(),
            forall|j: int| 0 <= j < i ==> !(rule.refuses())(#[trigger] xs@[j]),
        decreases xs.len() - i,
    {
        if !rule.check(xs[i]) {
            proof {
                lemma_first_index_is(xs@, rule.refuses(), i);
            }
            return Some(i);
        }
        i += 1;
    }
    proof {
        lemma_first_index_none(xs@, rule.refuses());
    }
    None
}

/// A count must not be zero.
pub fn validate_positive(field: Field, value: usize) -> (r: Result<(), ConfigurationError>)
    ensures
        r == (if value == 0 {
            Err(ConfigurationError::NotPositive { field })
        } else {
            Ok(())
        }),
{
    if value == 0 {
        return Err(ConfigurationError::NotPositive { field });
    }
    Ok(())
}

/// A vector must have the expected length.
pub fn validate_len(field: Field, expected: usize, got: usize) -> (r: Result<
    (),
    ConfigurationError,
>)
    ensures
        r == (if expected != got {
            Err(ConfigurationError::LengthMismatch { field, expected, got })
        } else {
            Ok(())
        }),
{
    if expected != got {
        return Err(ConfigurationError::LengthMismatch { field, expected, got });
    }
    Ok(())
}

/// A forgetting factor must be finite and strictly between 0 and 1.
pub fn validate_forgetting_factor(field: Field, value: Binary64) -> (r: Result<
    (),
    ConfigurationError,
>)
    ensures
        r == (if is_forgetting_factor(value) {
            Ok(())
        } else {
            Err(ConfigurationError::NotInUnitInterval { field, index: None, bits: value.bits })
        }),
{
    if !forgetting_factor_ok(value) {
        return Err(ConfigurationError::NotInUnitInterval { field, index: None, bits: value.bits });
    }
    Ok(())
}

/// Every forgetting factor must be finite and strictly between 0 and 1.
pub fn validate_forgetting_factors(field: Field, values: &Vec<Binary64>) -> (r: Result<
    (),
    ConfigurationError,
>)
    ensures
        r == (match first_violation(values@, Rule::ForgettingFactor) {
            Some(i) => Err(
                ConfigurationError::NotInUnitInterval {
                    field,
                    index: Some(i),
                    bits: values@[i as int].bits,
                },
            ),
            None => Ok(()),
        }),
{
    match find_violation(values, Rule::ForgettingFactor) {
        Some(i) => Err(
            ConfigurationError::NotInUnitInterval { field, index: Some(i), bits: values[i].bits },
        ),
        None => Ok(()),
    }
}

/// Every entry must be finite and not below 0.
pub fn validate_non_negative_finite(field: Field, values: &Vec<Binary64>) -> (r: Result<
    (),
    ConfigurationError,
>)
    ensures
        r == (match first_violation(values@, Rule::FiniteNonNegative) {
            Some(i) => Err(
                ConfigurationError::NotFiniteNonNegative {
                    field,
                    index: Some(i),
                    bits: values@[i as int].bits,
                },
            ),
            None => Ok(()),
        }),
{
    match find_violation(values, Rule::FiniteNonNegative) {
        Some(i) => Err(
            ConfigurationError::NotFiniteNonNegative {
                field,
                index: Some(i),
                bits: values[i].bits,
            },
        ),
        None => Ok(()),
    }
}

/// Every entry of an input vector must be finite.
pub fn validate_finite(values: &Vec<Binary64>) -> (r: Result<(), InputError>)
    ensures
        r == (match first_violation(values@, Rule::Finite) {
            Some(i) => Err(InputError::NotFinite { index: i, bits: values@[i as int].bits }),
            None => Ok(()),
        }),
{
    match find_violation(values, Rule::Finite) {
        Some(i) => Err(InputError::NotFinite { index: i, bits: values[i].bits }),
        None => Ok(()),
    }
}

/// The rejection of an input vector for `channels` channels, if any: a
/// wrong length first, else the first entry that is not finite.
pub open spec fn input_rejection(channels: usize, values: Seq<Binary64>) -> Option<InputError> {
    if values.len() != channels {
        Some(InputError::LengthMismatch { expected: channels, got: values.len() as usize })
    } else {
        match first_violation(values, Rule::Finite) {
            Some(i) => Some(InputError::NotFinite { index: i, bits: values[i as int].bits }),
            None => None,
        }
    }
}

/// Checks an input vector against the channel count and for finiteness.
pub fn validate_input(channels: usize, values: &Vec<Binary64>) -> (r: Result<(), InputError>)
    ensures
        r == (match input_rejection(channels, values@) {
            Some(e) => Err(e),
            None => Ok(()),
        }),
{
    if values.len() != channels {
        return Err(InputError::LengthMismatch { expected: channels, got: values.len() });
    }
    validate_finite(values)
}

} // verus!
