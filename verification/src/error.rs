//! Rejections, in two kinds: a configuration refused at construction, and an
//! input refused by one call. Neither is retried or repaired by the library.
use vstd::prelude::*;
use crate::binary64::Binary64;
use crate::binary64::number;
use vstd::string::StringExecFns;

verus! {

/// The parameter that a rejection speaks of.
#[derive(Clone, Copy, Debug, PartialEq, Eq, Structural)]
pub enum Field {
    /// Channel count `m`.
    ChannelCount,
    /// Group count `g`.
    GroupCount,
    /// Channel-to-group mapping.
    GroupMapping,
    /// Channel forgetting factor.
    Rho,
    /// Group forgetting factors.
    RhoG,
    /// Channel sensitivities.
    BetaK,
    /// Group sensitivities.
    BetaG,
    /// Trust softness.
    Sigma0,
    /// Initial envelope value.
    Envelope,
    /// Gain of the position correction.
    KPhi,
    /// Gain of the drift correction.
    KOmega,
    /// Gain of the slew correction.
    KAlpha,
    /// Sensitivity of a single channel.
    Beta,
    /// Bound of the residual noise.
    EpsilonBound,
    /// Number of steps of a run.
    Steps,
    /// The gain row with the given index.
    GainRow(usize),
    /// Residual or measurement vector of a call.
    Residuals,
}

/// A configuration refused at construction. Nothing is built when one is
/// returned. Where a number is refused, `bits` is its bit pattern.
#[derive(Clone, Copy, Debug, PartialEq, Eq, Structural)]
pub enum ConfigurationError {
    /// A count that must be positive is zero.
    NotPositive { field: Field },
    /// A vector has another length than the configuration asks for.
    LengthMismatch { field: Field, expected: usize, got: usize },
    /// A forgetting factor is not a finite number strictly between 0 and 1.
    /// `index` is `None` for a scalar parameter.
    NotInUnitInterval { field: Field, index: Option<usize>, bits: u64 },
    /// A parameter is not a finite number greater than 0.
    NotAboveZero { field: Field, bits: u64 },
    /// A scalar gain is infinite or NaN.
    NotFinite { field: Field, bits: u64 },
    /// A sensitivity or a start value is negative, infinite or NaN.
    NotFiniteNonNegative { field: Field, index: Option<usize>, bits: u64 },
    /// A channel is mapped to a group that does not exist.
    GroupOutOfRange { channel: usize, group: usize, groups: usize },
    /// The gain matrix has no row.
    EmptyGainMatrix,
    /// A gain is infinite or NaN.
    GainNotFinite { row: usize, column: usize, bits: u64 },
}

/// An input refused by a `step` or `update` call. The estimator is left as it
/// was before the call. Where a number is refused, `bits` is its bit
/// pattern.
#[derive(Clone, Copy, Debug, PartialEq, Eq, Structural)]
pub enum InputError {
    /// The vector has another length than the channel count.
    LengthMismatch { expected: usize, got: usize },
    /// The entry at `index` is infinite or NaN.
    NotFinite { index: usize, bits: u64 },
    /// The time step is infinite or NaN.
    TimeStepNotFinite,
    /// The residual that the measurement at `index` leaves against the
    /// prediction is infinite or NaN.
    ResidualNotFinite { index: usize, bits: u64 },
}

/// Any rejection by the hierarchical estimator.
#[derive(Clone, Copy, Debug, PartialEq, Eq, Structural)]
pub enum HretError {
    Configuration(ConfigurationError),
    Input(InputError),
}

/// The decimal digit for `d`, `0 <= d <= 9`.
pub open spec fn digit_char(d: nat) -> char {
    if d == 0 {
        '0'
    } else if d == 1 {
        '1'
    } else if d == 2 {
        '2'
    } else if d == 3 {
        '3'
    } else if d == 4 {
        '4'
    } else if d == 5 {
        '5'
    } else if d == 6 {
        '6'
    } else if d == 7 {
        '7'
    } else if d == 8 {
        '8'
    } else {
        '9'
    }
}

/// Decimal numeral of `n`, without leading zeros.
pub open spec fn decimal(n: nat) -> Seq<char>
    decreases n,
{
    if n < 10 {
        seq![digit_char(n)]
    } else {
        decimal(n / 10).push(digit_char(n % 10))
    }
}

fn digit_text(d: usize) -> (r: &'static str)
    requires
        d < 10,
    ensures
        r@ == seq![digit_char(d as nat)],
{
    proof {
        reveal_strlit("0");
        reveal_strlit("1");
        reveal_strlit("2");
        reveal_strlit("3");
        reveal_strlit("4");
        reveal_strlit("5");
        reveal_strlit("6");
        reveal_strlit("7");
        reveal_strlit("8");
        reveal_strlit("9");
    }
    let r = if d == 0 {
        "0"
    } else if d == 1 {
        "1"
    } else if d == 2 {
        "2"
    } else if d == 3 {
        "3"
    } else if d == 4 {
        "4"
    } else if d == 5 {
        "5"
    } else if d == 6 {
        "6"
    } else if d == 7 {
        "7"
    } else if d == 8 {
        "8"
    } else {
        "9"
    };
    assert(r@ =~= seq![digit_char(d as nat)]);
    r
}

/// Appends the decimal numeral of `n` to `out`.
pub fn push_decimal(out: &mut String, n: usize)
    ensures
        final(out)@ == old(out)@ + decimal(n as nat),
    decreases n,
{
    if n >= 10 {
        push_decimal(out, n / 10);
    }
    out.append(digit_text(n % 10));
    assert(final(out)@ =~= old(out)@ + decimal(n as nat));
}

impl Field {
    /// The parameter's name as it appears in messages.
    pub open spec fn name(self) -> Seq<char> {
        match self {
            Field::ChannelCount => "m"@,
            Field::GroupCount => "g"@,
            Field::GroupMapping => "group_mapping"@,
            Field::Rho => "rho"@,
            Field::RhoG => "rho_g"@,
            Field::BetaK => "beta_k"@,
            Field::BetaG => "beta_g"@,
            Field::Sigma0 => "sigma0"@,
            Field::Envelope => "s0"@,
            Field::KPhi => "k_phi"@,
            Field::KOmega => "k_omega"@,
            Field::KAlpha => "k_alpha"@,
            Field::Beta => "beta"@,
            Field::EpsilonBound => "epsilon_bound"@,
            Field::Steps => "n_steps"@,
            Field::GainRow(row) => "k_k["@ + decimal(row as nat) + "]"@,
            Field::Residuals => "residuals"@,
        }
    }

    /// Appends the parameter's name to `out`.
    pub fn push_name(self, out: &mut String)
        ensures
            final(out)@ == old(out)@ + self.name(),
    {
        match self {
            Field::ChannelCount => out.append("m"),
            Field::GroupCount => out.append("g"),
            Field::GroupMapping => out.append("group_mapping"),
            Field::Rho => out.append("rho"),
            Field::RhoG => out.append("rho_g"),
            Field::BetaK => out.append("beta_k"),
            Field::BetaG => out.append("beta_g"),
            Field::Sigma0 => out.append("sigma0"),
            Field::Envelope => out.append("s0"),
            Field::KPhi => out.append("k_phi"),
            Field::KOmega => out.append("k_omega"),
            Field::KAlpha => out.append("k_alpha"),
            Field::Beta => out.append("beta"),
            Field::EpsilonBound => out.append("epsilon_bound"),
            Field::Steps => out.append("n_steps"),
            Field::GainRow(row) => {
                out.append("k_k[");
                push_decimal(out, row);
                out.append("]");
            },
            Field::Residuals => out.append("residuals"),
        }
        assert(final(out)@ =~= old(out)@ + self.name());
    }
}

/// `name`, or `name[index]` where an index is given.
pub open spec fn indexed_name(field: Field, index: Option<usize>) -> Seq<char> {
    match index {
        Some(i) => field.name() + "["@ + decimal(i as nat) + "]"@,
        None => field.name(),
    }
}

fn push_indexed_name(out: &mut String, field: Field, index: Option<usize>)
    ensures
        final(out)@ == old(out)@ + indexed_name(field, index),
{
    field.push_name(out);
    match index {
        Some(i) => {
            out.append("[");
            push_decimal(out, i);
            out.append("]");
        },
        None => {},
    }
    assert(final(out)@ =~= old(out)@ + indexed_name(field, index));
}

impl ConfigurationError {
    /// The message of this rejection.
    pub open spec fn text(self) -> Seq<char> {
        match self {
            ConfigurationError::NotPositive { field } => field.name() + " must be > 0 (got 0)"@,
            ConfigurationError::LengthMismatch { field, expected, got } => field.name()
                + " length mismatch: expected "@ + decimal(expected as nat) + ", got "@ + decimal(
                got as nat,
            ),
            ConfigurationError::NotInUnitInterval { field, index, .. } => indexed_name(field, index)
                + " must be finite and in (0, 1)"@,
            ConfigurationError::NotAboveZero { field, .. } => field.name()
                + " must be finite and > 0"@,
            ConfigurationError::NotFinite { field, .. } => field.name() + " must be finite"@,
            ConfigurationError::NotFiniteNonNegative { field, index, .. } => indexed_name(
                field,
                index,
            ) + " must be finite and >= 0"@,
            ConfigurationError::GroupOutOfRange { channel, group, groups } => "group_mapping["@
                + decimal(channel as nat) + "] = "@ + decimal(group as nat)
                + " is out of range 0.."@ + decimal(groups as nat),
            ConfigurationError::EmptyGainMatrix => "k_k must contain at least one gain row"@,
            ConfigurationError::GainNotFinite { row, column, .. } => "k_k["@ + decimal(row as nat)
                + "]["@ + decimal(column as nat) + "] must be finite"@,
        }
    }

    /// Writes the rejection out for a reader.
    pub fn message(&self) -> (r: String)
        ensures
            r@ == self.text(),
    {
        let mut out = String::new();
        match *self {
            ConfigurationError::NotPositive { field } => {
                field.push_name(&mut out);
                out.append(" must be > 0 (got 0)");
            },
            ConfigurationError::LengthMismatch { field, expected, got } => {
                field.push_name(&mut out);
                out.append(" length mismatch: expected ");
                push_decimal(&mut out, expected);
                out.append(", got ");
                push_decimal(&mut out, got);
            },
            ConfigurationError::NotInUnitInterval { field, index, .. } => {
                push_indexed_name(&mut out, field, index);
                out.append(" must be finite and in (0, 1)");
            },
            ConfigurationError::NotAboveZero { field, .. } => {
                field.push_name(&mut out);
                out.append(" must be finite and > 0");
            },
            ConfigurationError::NotFinite { field, .. } => {
                field.push_name(&mut out);
                out.append(" must be finite");
            },
            ConfigurationError::NotFiniteNonNegative { field, index, .. } => {
                push_indexed_name(&mut out, field, index);
                out.append(" must be finite and >= 0");
            },
            ConfigurationError::GroupOutOfRange { channel, group, groups } => {
                out.append("group_mapping[");
                push_decimal(&mut out, channel);
                out.append("] = ");
                push_decimal(&mut out, group);
                out.append(" is out of range 0..");
                push_decimal(&mut out, groups);
            },
            ConfigurationError::EmptyGainMatrix => {
                out.append("k_k must contain at least one gain row");
            },
            ConfigurationError::GainNotFinite { row, column, .. } => {
                out.append("k_k[");
                push_decimal(&mut out, row);
                out.append("][");
                push_decimal(&mut out, column);
                out.append("] must be finite");
            },
        }
        assert(out@ =~= self.text());
        out
    }

    /// The number that was refused, where the rejection is about one.
    pub open spec fn refused_number(self) -> Option<Binary64> {
        match self {
            ConfigurationError::NotInUnitInterval { bits, .. } => Some(number(bits)),
            ConfigurationError::NotAboveZero { bits, .. } => Some(number(bits)),
            ConfigurationError::NotFinite { bits, .. } => Some(number(bits)),
            ConfigurationError::NotFiniteNonNegative { bits, .. } => Some(number(bits)),
            ConfigurationError::GainNotFinite { bits, .. } => Some(number(bits)),
            _ => None,
        }
    }

    /// The number that was refused, for a reader who wants to see it.
    pub fn offending(&self) -> (r: Option<Binary64>)
        ensures
            r == self.refused_number(),
    {
        match *self {
            ConfigurationError::NotInUnitInterval { bits, .. } => Some(Binary64::from_bits(bits)),
            ConfigurationError::NotAboveZero { bits, .. } => Some(Binary64::from_bits(bits)),
            ConfigurationError::NotFinite { bits, .. } => Some(Binary64::from_bits(bits)),
            ConfigurationError::NotFiniteNonNegative { bits, .. } => Some(
                Binary64::from_bits(bits),
            ),
            ConfigurationError::GainNotFinite { bits, .. } => Some(Binary64::from_bits(bits)),
            _ => None,
        }
    }
}

impl InputError {
    /// The number that was refused, where the rejection is about one.
    pub open spec fn refused_number(self) -> Option<Binary64> {
        match self {
            InputError::NotFinite { bits, .. } => Some(number(bits)),
            InputError::ResidualNotFinite { bits, .. } => Some(number(bits)),
            _ => None,
        }
    }

    /// The number that was refused, for a reader who wants to see it.
    pub fn offending(&self) -> (r: Option<Binary64>)
        ensures
            r == self.refused_number(),
    {
        match *self {
            InputError::NotFinite { bits, .. } => Some(Binary64::from_bits(bits)),
            InputError::ResidualNotFinite { bits, .. } => Some(Binary64::from_bits(bits)),
            _ => None,
        }
    }
    /// The message of this rejection.
    pub open spec fn text(self) -> Seq<char> {
        match self {
            InputError::LengthMismatch { expected, got } => "residuals length mismatch: expected "@
                + decimal(expected as nat) + ", got "@ + decimal(got as nat),
            InputError::NotFinite { index, .. } => "residuals["@ + decimal(index as nat)
                + "] must be finite"@,
            InputError::TimeStepNotFinite => "dt must be finite"@,
            InputError::ResidualNotFinite { index, .. } => "the residual of measurement "@ + decimal(
                index as nat,
            ) + " against the prediction must be finite"@,
        }
    }

    /// Writes the rejection out for a reader.
    pub fn message(&self) -> (r: String)
        ensures
            r@ == self.text(),
    {
        let mut out = String::new();
        match *self {
            InputError::LengthMismatch { expected, got } => {
                out.append("residuals length mismatch: expected ");
                push_decimal(&mut out, expected);
                out.append(", got ");
                push_decimal(&mut out, got);
            },
            InputError::NotFinite { index, .. } => {
                out.append("residuals[");
                push_decimal(&mut out, index);
                out.append("] must be finite");
            },
            InputError::TimeStepNotFinite => {
                out.append("dt must be finite");
            },
            InputError::ResidualNotFinite { index, .. } => {
                out.append("the residual of measurement ");
                push_decimal(&mut out, index);
                out.append(" against the prediction must be finite");
            },
        }
        assert(out@ =~= self.text());
        out
    }
}

impl HretError {
    /// The message of this rejection.
    pub open spec fn text(self) -> Seq<char> {
        match self {
            HretError::Configuration(e) => e.text(),
            HretError::Input(e) => e.text(),
        }
    }

    /// Writes the rejection out for a reader.
    pub fn message(&self) -> (r: String)
        ensures
            r@ == self.text(),
    {
        match self {
            HretError::Configuration(e) => e.message(),
            HretError::Input(e) => e.message(),
        }
    }

    /// The number that was refused, where the rejection is about one.
    pub open spec fn refused_number(self) -> Option<Binary64> {
        match self {
            HretError::Configuration(e) => e.refused_number(),
            HretError::Input(e) => e.refused_number(),
        }
    }

    /// The number that was refused, for a reader who wants to see it.
    pub fn offending(&self) -> (r: Option<Binary64>)
        ensures
            r == self.refused_number(),
    {
        match self {
            HretError::Configuration(e) => e.offending(),
            HretError::Input(e) => e.offending(),
        }
    }

    /// Whether the rejection was made at construction.
    pub fn is_configuration(&self) -> (r: bool)
        ensures
            r == (*self is Configuration),
    {
        match self {
            HretError::Configuration(_) => true,
            HretError::Input(_) => false,
        }
    }

    /// Whether the rejection was made on the input of one call.
    pub fn is_input(&self) -> (r: bool)
        ensures
            r == (*self is Input),
    {
        match self {
            HretError::Configuration(_) => false,
            HretError::Input(_) => true,
        }
    }
}

} // verus!
