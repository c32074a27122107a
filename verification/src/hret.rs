//! Hierarchical estimator: channels gathered in groups, one envelope per
//! channel and per group, the two trusts multiplied before normalisation,
//! and a gain matrix that turns the weighted residuals into a correction.
use vstd::prelude::*;
use crate::binary64::Binary64;
use crate::binary64::count_number;
use crate::binary64::number;
use crate::binary64::ZERO_BITS;
use crate::envelope::blend;
use crate::envelope::blend_envelope;
use crate::envelope::advance_envelope;
use crate::envelope::is_forgetting_factor;
use crate::error::ConfigurationError;
use crate::error::Field;
use crate::error::HretError;
use crate::trust::advanced_envelopes;
use crate::trust::bounded_affine;
use crate::trust::normalize_weights;
use crate::trust::normalized;
use crate::trust::running_sum;
use crate::trust::TrustWeight;
use crate::validate::find_violation;
use crate::validate::first_index_where;
use crate::validate::first_violation;
use crate::validate::input_rejection;
use crate::validate::lemma_first_index_is;
use crate::validate::lemma_first_index_none;
use crate::validate::validate_forgetting_factor;
use crate::validate::validate_forgetting_factors;
use crate::validate::validate_input;
use crate::validate::validate_len;
use crate::validate::validate_non_negative_finite;
use crate::validate::validate_positive;
use crate::validate::Rule;

verus! {

/// What one update hands back: the correction `delta_x`, the weights, the
/// channel envelopes and the group envelopes, in this order.
pub type HretUpdate = (Vec<Binary64>, Vec<Binary64>, Vec<Binary64>, Vec<Binary64>);

/// The channels mapped to `group`, in increasing order.
pub open spec fn members(mapping: Seq<usize>, group: usize) -> Seq<usize>
    decreases mapping.len(),
{
    if mapping.len() == 0 {
        Seq::empty()
    } else {
        let before = members(mapping.drop_last(), group);
        if mapping.last() == group {
            before.push((mapping.len() - 1) as usize)
        } else {
            before
        }
    }
}

/// Every member of a group is a channel.
pub proof fn lemma_members_are_channels(mapping: Seq<usize>, group: usize)
    requires
        mapping.len() <= usize::MAX,
    ensures
        forall|i: int|
            0 <= i < members(mapping, group).len() ==> (#[trigger] members(mapping, group)[i])
                < mapping.len(),
    decreases mapping.len(),
{
    if mapping.len() > 0 {
        let before = members(mapping.drop_last(), group);
        lemma_members_are_channels(mapping.drop_last(), group);
        assert forall|i: int| 0 <= i < members(mapping, group).len() implies (#[trigger] members(
            mapping,
            group,
        )[i]) < mapping.len() by {
            if i < before.len() {
                assert(members(mapping, group)[i] == before[i]);
            }
        }
    }
}

/// The absolute residuals of the given channels.
pub open spec fn magnitudes_at(residuals: Seq<Binary64>, channels: Seq<usize>) -> Seq<Binary64> {
    Seq::new(channels.len(), |i: int| residuals[channels[i] as int].magnitude())
}

/// Mean absolute residual of the given channels.
pub open spec fn group_mean(residuals: Seq<Binary64>, channels: Seq<usize>) -> Binary64 {
    running_sum(magnitudes_at(residuals, channels)).over(count_number(channels.len()))
}

/// A group's envelope after one step. A group without channels keeps its
/// envelope; any other moves towards the mean absolute residual of its
/// channels.
pub open spec fn group_envelope_next(
    rho_g: Binary64,
    s_g: Binary64,
    residuals: Seq<Binary64>,
    channels: Seq<usize>,
) -> Binary64 {
    if channels.len() == 0 {
        s_g
    } else {
        blend(rho_g, s_g, group_mean(residuals, channels))
    }
}

/// The bounded-affine trust of each envelope under its own sensitivity.
pub open spec fn trusts(betas: Seq<Binary64>, envelopes: Seq<Binary64>) -> Seq<Binary64> {
    Seq::new(envelopes.len(), |i: int| bounded_affine(betas[i], envelopes[i]))
}

/// Each channel's trust times the trust of the channel's group.
pub open spec fn composed(
    channel_trust: Seq<Binary64>,
    group_trust: Seq<Binary64>,
    mapping: Seq<usize>,
) -> Seq<Binary64> {
    Seq::new(channel_trust.len(), |k: int| channel_trust[k].times(group_trust[mapping[k] as int]))
}

/// Each residual scaled by its channel's weight.
pub open spec fn weighted(weights: Seq<Binary64>, residuals: Seq<Binary64>) -> Seq<Binary64> {
    Seq::new(weights.len(), |k: int| weights[k].times(residuals[k]))
}

/// Inner product of a gain row with a vector: each product is rounded, and
/// the products are summed from left to right, starting at `+0.0` and
/// rounding after each addition, for any number of entries.
pub open spec fn dot(row: Seq<Binary64>, xs: Seq<Binary64>) -> Binary64 {
    running_sum(Seq::new(row.len(), |k: int| row[k].times(xs[k])))
}

/// The product of the gain matrix with a vector.
pub open spec fn gain_product(gains: Seq<Seq<Binary64>>, xs: Seq<Binary64>) -> Seq<Binary64> {
    Seq::new(gains.len(), |row: int| dot(gains[row], xs))
}

/// `n` envelopes at `+0.0`.
pub open spec fn zeros(n: nat) -> Seq<Binary64> {
    Seq::new(n, |i: int| number(ZERO_BITS))
}

/// The rows of a matrix held as a vector of vectors.
pub open spec fn rows_of(matrix: Vec<Vec<Binary64>>) -> Seq<Seq<Binary64>> {
    Seq::new(matrix@.len(), |i: int| matrix@[i]@)
}

/// The group indices that do not exist among `groups` groups.
pub open spec fn out_of_range(groups: usize) -> spec_fn(usize) -> bool {
    |group: usize| group >= groups
}

/// The gain rows that are refused for `channels` channels: those of another
/// length and those that hold an infinity or a NaN.
pub open spec fn row_refused(channels: usize) -> spec_fn(Seq<Binary64>) -> bool {
    |row: Seq<Binary64>| row.len() != channels || first_violation(row, Rule::Finite) is Some
}

/// The rejection that a refused gain row leads to: its length is looked at
/// before its entries.
pub open spec fn gain_row_rejection(row: Seq<Binary64>, index: usize, channels: usize) -> Option<
    ConfigurationError,
> {
    if row.len() != channels {
        Some(
            ConfigurationError::LengthMismatch {
                field: Field::GainRow(index),
                expected: channels,
                got: row.len() as usize,
            },
        )
    } else {
        match first_violation(row, Rule::Finite) {
            Some(column) => Some(
                ConfigurationError::GainNotFinite {
                    row: index,
                    column,
                    bits: row[column as int].bits,
                },
            ),
            None => None,
        }
    }
}

/// The rejection of a gain matrix, if any: that of its first refused row.
pub open spec fn gains_rejection(gains: Seq<Seq<Binary64>>, channels: usize) -> Option<
    ConfigurationError,
> {
    match first_index_where(gains, row_refused(channels)) {
        Some(row) => gain_row_rejection(gains[row as int], row, channels),
        None => None,
    }
}

/// The rejection of a configuration, if any. The checks come in a fixed
/// order and the first that fails decides: the two counts, the four
/// lengths, the forgetting factors, the sensitivities, the group indices,
/// then the gain matrix row by row.
pub open spec fn config_rejection(
    m: usize,
    g: usize,
    mapping: Seq<usize>,
    rho: Binary64,
    rho_g: Seq<Binary64>,
    beta_k: Seq<Binary64>,
    beta_g: Seq<Binary64>,
    gains: Seq<Seq<Binary64>>,
) -> Option<ConfigurationError> {
    if m == 0 {
        Some(ConfigurationError::NotPositive { field: Field::ChannelCount })
    } else if g == 0 {
        Some(ConfigurationError::NotPositive { field: Field::GroupCount })
    } else if mapping.len() != m {
        Some(
            ConfigurationError::LengthMismatch {
                field: Field::GroupMapping,
                expected: m,
                got: mapping.len() as usize,
            },
        )
    } else if rho_g.len() != g {
        Some(
            ConfigurationError::LengthMismatch {
                field: Field::RhoG,
                expected: g,
                got: rho_g.len() as usize,
            },
        )
    } else if beta_k.len() != m {
        Some(
            ConfigurationError::LengthMismatch {
                field: Field::BetaK,
                expected: m,
                got: beta_k.len() as usize,
            },
        )
    } else if beta_g.len() != g {
        Some(
            ConfigurationError::LengthMismatch {
                field: Field::BetaG,
                expected: g,
                got: beta_g.len() as usize,
            },
        )
    } else if !is_forgetting_factor(rho) {
        Some(ConfigurationError::NotInUnitInterval { field: Field::Rho, index: None, bits: rho.bits })
    } else if first_violation(rho_g, Rule::ForgettingFactor) is Some {
        Some(
            ConfigurationError::NotInUnitInterval {
                field: Field::RhoG,
                index: first_violation(rho_g, Rule::ForgettingFactor),
                bits: rho_g[first_violation(rho_g, Rule::ForgettingFactor)->Some_0 as int].bits,
            },
        )
    } else if first_violation(beta_k, Rule::FiniteNonNegative) is Some {
        Some(
            ConfigurationError::NotFiniteNonNegative {
                field: Field::BetaK,
                index: first_violation(beta_k, Rule::FiniteNonNegative),
                bits: beta_k[first_violation(beta_k, Rule::FiniteNonNegative)->Some_0 as int].bits,
            },
        )
    } else if first_violation(beta_g, Rule::FiniteNonNegative) is Some {
        Some(
            ConfigurationError::NotFiniteNonNegative {
                field: Field::BetaG,
                index: first_violation(beta_g, Rule::FiniteNonNegative),
                bits: beta_g[first_violation(beta_g, Rule::FiniteNonNegative)->Some_0 as int].bits,
            },
        )
    } else if first_index_where(mapping, out_of_range(g)) is Some {
        let channel = first_index_where(mapping, out_of_range(g))->Some_0;
        Some(
            ConfigurationError::GroupOutOfRange {
                channel,
                group: mapping[channel as int],
                groups: g,
            },
        )
    } else if gains.len() == 0 {
        Some(ConfigurationError::EmptyGainMatrix)
    } else {
        gains_rejection(gains, m)
    }
}

/// The estimator as a mathematical value: its configuration and its
/// envelopes.
pub struct HretModel {
    /// The group of each channel; its length is the channel count `m`.
    pub mapping: Seq<usize>,
    /// The group count `g`.
    pub groups: usize,
    /// Forgetting factor of the channel envelopes.
    pub rho: Binary64,
    /// Forgetting factor of each group envelope.
    pub rho_g: Seq<Binary64>,
    /// Sensitivity of each channel.
    pub beta_k: Seq<Binary64>,
    /// Sensitivity of each group.
    pub beta_g: Seq<Binary64>,
    /// Gain matrix, `p` rows of `m` gains.
    pub gains: Seq<Seq<Binary64>>,
    /// Channel envelopes.
    pub s_k: Seq<Binary64>,
    /// Group envelopes.
    pub s_g: Seq<Binary64>,
}

impl HretModel {
    /// The channel count `m`.
    pub open spec fn channels(self) -> nat {
        self.mapping.len()
    }

    /// The configuration is one that construction accepts, and there is one
    /// envelope per channel and per group.
    pub open spec fn is_valid(self) -> bool {
        &&& self.mapping.len() <= usize::MAX
        &&& config_rejection(
            self.mapping.len() as usize,
            self.groups,
            self.mapping,
            self.rho,
            self.rho_g,
            self.beta_k,
            self.beta_g,
            self.gains,
        ) is None
        &&& self.s_k.len() == self.mapping.len()
        &&& self.s_g.len() == self.groups
    }

    /// The model in which every envelope is back at zero.
    pub open spec fn reset(self) -> HretModel {
        HretModel { s_k: zeros(self.s_k.len()), s_g: zeros(self.s_g.len()), ..self }
    }

    /// The group envelopes after `residuals` were taken in.
    pub open spec fn next_group_envelopes(self, residuals: Seq<Binary64>) -> Seq<Binary64> {
        Seq::new(
            self.s_g.len(),
            |j: int|
                group_envelope_next(
                    self.rho_g[j],
                    self.s_g[j],
                    residuals,
                    members(self.mapping, j as usize),
                ),
        )
    }

    /// The model after `residuals` were taken in: every channel envelope
    /// advances by its residual, every group envelope by the mean absolute
    /// residual of its channels. The configuration stays.
    pub open spec fn stepped(self, residuals: Seq<Binary64>) -> HretModel {
        HretModel {
            s_k: advanced_envelopes(self.rho, self.s_k, residuals),
            s_g: self.next_group_envelopes(residuals),
            ..self
        }
    }

    /// Unnormalised score of each channel: its own trust times its group's.
    pub open spec fn scores(self) -> Seq<Binary64> {
        composed(trusts(self.beta_k, self.s_k), trusts(self.beta_g, self.s_g), self.mapping)
    }

    /// The convex weights that the present envelopes give.
    pub open spec fn weights(self) -> Seq<Binary64> {
        normalized(self.scores())
    }

    /// The correction `K * (w . r)` that the present envelopes give for
    /// `residuals`.
    pub open spec fn correction(self, residuals: Seq<Binary64>) -> Seq<Binary64> {
        gain_product(self.gains, weighted(self.weights(), residuals))
    }
}

/// The model that construction yields: the configuration as given, every
/// envelope at zero.
pub open spec fn initial_model(
    g: usize,
    mapping: Seq<usize>,
    rho: Binary64,
    rho_g: Seq<Binary64>,
    beta_k: Seq<Binary64>,
    beta_g: Seq<Binary64>,
    gains: Seq<Seq<Binary64>>,
) -> HretModel {
    HretModel {
        mapping,
        groups: g,
        rho,
        rho_g,
        beta_k,
        beta_g,
        gains,
        s_k: zeros(mapping.len()),
        s_g: zeros(g as nat),
    }
}

/// A copy of the vector.
pub fn copy_of(xs: &Vec<Binary64>) -> (r: Vec<Binary64>)
    ensures
        r@ == xs@,
{
    let mut out: Vec<Binary64> = Vec::new();
    let mut i: usize = 0;
    while i < xs.len()
        invariant
            i <= xs.len(),
            out@ == xs@.take(i as int),
        decreases xs.len() - i,
    {
        out.push(xs[i]);
        assert(out@ =~= xs@.take(i + 1));
        i += 1;
    }
    assert(xs@.take(xs.len() as int) =~= xs@);
    out
}

/// A vector of `n` zeros.
pub fn zero_vector(n: usize) -> (r: Vec<Binary64>)
    ensures
        r@ == zeros(n as nat),
{
    let mut out: Vec<Binary64> = Vec::new();
    let mut i: usize = 0;
    while i < n
        invariant
            i <= n,
            out@.len() == i,
            forall|j: int| 0 <= j < i ==> out@[j] == number(ZERO_BITS),
        decreases n - i,
    {
        out.push(Binary64::zero());
        i += 1;
    }
    assert(out@ =~= zeros(n as nat));
    out
}

/// Advances every channel envelope by the residual of its channel.
pub fn advance_channels(rho: Binary64, envelopes: &mut Vec<Binary64>, residuals: &Vec<Binary64>)
    requires
        residuals.len() == old(envelopes).len(),
    ensures
        final(envelopes)@ == advanced_envelopes(rho, old(envelopes)@, residuals@),
{
    let n = residuals.len();
    let mut k: usize = 0;
    while k < n
        invariant
            n == residuals.len(),
            envelopes.len() == n,
            old(envelopes).len() == n,
            k <= n,
            forall|j: int|
                0 <= j < k ==> envelopes@[j] == crate::envelope::envelope_next(
                    rho,
                    old(envelopes)@[j],
                    residuals@[j],
                ),
            forall|j: int| k <= j < n ==> envelopes@[j] == old(envelopes)@[j],
        decreases n - k,
    {
        let s = advance_envelope(rho, envelopes[k], residuals[k]);
        envelopes.set(k, s);
        k += 1;
    }
    assert(envelopes@ =~= advanced_envelopes(rho, old(envelopes)@, residuals@));
}

/// Mean absolute residual of the given channels.
pub fn mean_magnitude(residuals: &Vec<Binary64>, channels: &Vec<usize>) -> (r: Binary64)
    requires
        forall|i: int| 0 <= i < channels.len() ==> (#[trigger] channels@[i]) < residuals.len(),
    ensures
        r == group_mean(residuals@, channels@),
{
    let ghost all = magnitudes_at(residuals@, channels@);
    let mut acc = Binary64::zero();
    let mut i: usize = 0;
    while i < channels.len()
        invariant
            i <= channels.len(),
            all == magnitudes_at(residuals@, channels@),
            forall|j: int| 0 <= j < channels.len() ==> (#[trigger] channels@[j]) < residuals.len(),
            acc == running_sum(all.take(i as int)),
        decreases channels.len() - i,
    {
        proof {
            assert(all.take(i + 1).drop_last() =~= all.take(i as int));
        }
        let channel = channels[i];
        acc = acc.add_rounded(residuals[channel].abs());
        i += 1;
    }
    proof {
        assert(all.take(channels.len() as int) =~= all);
    }
    acc.div_rounded(Binary64::from_count(channels.len()))
}

/// Advances every group envelope by the mean absolute residual of the
/// group's channels. Groups without channels are passed over.
pub fn advance_groups(
    rho_g: &Vec<Binary64>,
    envelopes: &mut Vec<Binary64>,
    group_members: &Vec<Vec<usize>>,
    residuals: &Vec<Binary64>,
)
    requires
        rho_g.len() == old(envelopes).len(),
        group_members.len() == old(envelopes).len(),
        forall|j: int, i: int|
            0 <= j < group_members.len() && 0 <= i < group_members@[j].len()
                ==> (#[trigger] group_members@[j]@[i]) < residuals.len(),
    ensures
        final(envelopes).len() == old(envelopes).len(),
        forall|j: int|
            0 <= j < old(envelopes).len() ==> (#[trigger] final(envelopes)@[j])
                == group_envelope_next(
                rho_g@[j],
                old(envelopes)@[j],
                residuals@,
                group_members@[j]@,
            ),
{
    let g = envelopes.len();
    let mut j: usize = 0;
    while j < g
        invariant
            g == envelopes.len(),
            g == old(envelopes).len(),
            g == rho_g.len(),
            g == group_members.len(),
            j <= g,
            forall|a: int, i: int|
                0 <= a < group_members.len() && 0 <= i < group_members@[a].len()
                    ==> (#[trigger] group_members@[a]@[i]) < residuals.len(),
            forall|a: int|
                0 <= a < j ==> (#[trigger] envelopes@[a]) == group_envelope_next(
                    rho_g@[a],
                    old(envelopes)@[a],
                    residuals@,
                    group_members@[a]@,
                ),
            forall|a: int| j <= a < g ==> envelopes@[a] == old(envelopes)@[a],
        decreases g - j,
    {
        let channels = &group_members[j];
        if channels.len() > 0 {
            let mean = mean_magnitude(residuals, channels);
            let s = blend_envelope(rho_g[j], envelopes[j], mean);
            envelopes.set(j, s);
        }
        j += 1;
    }
}

/// The bounded-affine trust of each envelope under its own sensitivity.
pub fn trust_scores(betas: &Vec<Binary64>, envelopes: &Vec<Binary64>) -> (r: Vec<Binary64>)
    requires
        betas.len() == envelopes.len(),
    ensures
        r@ == trusts(betas@, envelopes@),
{
    let n = envelopes.len();
    let mut out: Vec<Binary64> = Vec::new();
    let mut i: usize = 0;
    while i < n
        invariant
            n == envelopes.len(),
            n == betas.len(),
            i <= n,
            out@.len() == i,
            forall|j: int| 0 <= j < i ==> out@[j] == bounded_affine(betas@[j], envelopes@[j]),
        decreases n - i,
    {
        out.push(TrustWeight::weight(betas[i], envelopes[i]));
        i += 1;
    }
    assert(out@ =~= trusts(betas@, envelopes@));
    out
}

/// Multiplies each channel's trust by the trust of the channel's group.
pub fn compose_trust(
    channel_trust: &Vec<Binary64>,
    group_trust: &Vec<Binary64>,
    mapping: &Vec<usize>,
) -> (r: Vec<Binary64>)
    requires
        mapping.len() == channel_trust.len(),
        forall|k: int| 0 <= k < mapping.len() ==> (#[trigger] mapping@[k]) < group_trust.len(),
    ensures
        r@ == composed(channel_trust@, group_trust@, mapping@),
{
    let n = channel_trust.len();
    let mut out: Vec<Binary64> = Vec::new();
    let mut k: usize = 0;
    while k < n
        invariant
            n == channel_trust.len(),
            n == mapping.len(),
            forall|a: int| 0 <= a < mapping.len() ==> (#[trigger] mapping@[a]) < group_trust.len(),
            k <= n,
            out@.len() == k,
            forall|a: int|
                0 <= a < k ==> out@[a] == channel_trust@[a].times(
                    group_trust@[mapping@[a] as int],
                ),
        decreases n - k,
    {
        let group = mapping[k];
        out.push(channel_trust[k].mul_rounded(group_trust[group]));
        k += 1;
    }
    assert(out@ =~= composed(channel_trust@, group_trust@, mapping@));
    out
}

/// Scales each residual by its channel's weight.
pub fn weigh(weights: &Vec<Binary64>, residuals: &Vec<Binary64>) -> (r: Vec<Binary64>)
    requires
        weights.len() == residuals.len(),
    ensures
        r@ == weighted(weights@, residuals@),
{
    let n = weights.len();
    let mut out: Vec<Binary64> = Vec::new();
    let mut k: usize = 0;
    while k < n
        invariant
            n == weights.len(),
            n == residuals.len(),
            k <= n,
            out@.len() == k,
            forall|a: int| 0 <= a < k ==> out@[a] == weights@[a].times(residuals@[a]),
        decreases n - k,
    {
        out.push(weights[k].mul_rounded(residuals[k]));
        k += 1;
    }
    assert(out@ =~= weighted(weights@, residuals@));
    out
}

/// Inner product of a gain row with a vector.
pub fn dot_product(row: &Vec<Binary64>, xs: &Vec<Binary64>) -> (r: Binary64)
    requires
        row.len() == xs.len(),
    ensures
        r == dot(row@, xs@),
{
    let ghost products = Seq::new(row@.len(), |k: int| row@[k].times(xs@[k]));
    let mut acc = Binary64::zero();
    let mut k: usize = 0;
    while k < row.len()
        invariant
            row.len() == xs.len(),
            k <= row.len(),
            products == Seq::new(row@.len(), |k: int| row@[k].times(xs@[k])),
            acc == running_sum(products.take(k as int)),
        decreases row.len() - k,
    {
        proof {
            assert(products.take(k + 1).drop_last() =~= products.take(k as int));
        }
        acc = acc.add_rounded(row[k].mul_rounded(xs[k]));
        k += 1;
    }
    proof {
        assert(products.take(row.len() as int) =~= products);
    }
    acc
}

/// The product of the gain matrix with a vector.
pub fn apply_gains(gains: &Vec<Vec<Binary64>>, xs: &Vec<Binary64>) -> (r: Vec<Binary64>)
    requires
        forall|row: int| 0 <= row < gains.len() ==> (#[trigger] gains@[row]).len() == xs.len(),
    ensures
        r@ == gain_product(rows_of(*gains), xs@),
{
    let p = gains.len();
    let mut out: Vec<Binary64> = Vec::new();
    let mut row: usize = 0;
    while row < p
        invariant
            p == gains.len(),
            forall|a: int| 0 <= a < gains.len() ==> (#[trigger] gains@[a]).len() == xs.len(),
            row <= p,
            out@.len() == row,
            forall|a: int| 0 <= a < row ==> out@[a] == dot(gains@[a]@, xs@),
        decreases p - row,
    {
        out.push(dot_product(&gains[row], xs));
        row += 1;
    }
    assert(out@ =~= gain_product(rows_of(*gains), xs@));
    out
}

/// The hierarchical estimator. Its configuration is fixed at construction;
/// only the envelopes change afterwards.
#[derive(Clone, Debug)]
pub struct HretObserver {
    m: usize,
    g: usize,
    group_mapping: Vec<usize>,
    group_indices: Vec<Vec<usize>>,
    rho: Binary64,
    rho_g: Vec<Binary64>,
    beta_k: Vec<Binary64>,
    beta_g: Vec<Binary64>,
    s_k: Vec<Binary64>,
    s_g: Vec<Binary64>,
    k_k: Vec<Vec<Binary64>>,
}

impl View for HretObserver {
    type V = HretModel;

    closed spec fn view(&self) -> HretModel {
        HretModel {
            mapping: self.group_mapping@,
            groups: self.g,
            rho: self.rho,
            rho_g: self.rho_g@,
            beta_k: self.beta_k@,
            beta_g: self.beta_g@,
            gains: rows_of(self.k_k),
            s_k: self.s_k@,
            s_g: self.s_g@,
        }
    }
}

impl HretObserver {
    /// The estimator holds a valid model, and its list of the channels of
    /// each group agrees with the mapping.
    pub closed spec fn wf(&self) -> bool {
        &&& self@.is_valid()
        &&& self.m == self.group_mapping@.len()
        &&& self.group_indices@.len() == self.g
        &&& forall|j: int|
            0 <= j < self.g ==> (#[trigger] self.group_indices@[j])@ == members(
                self.group_mapping@,
                j as usize,
            )
    }

    /// A well-formed estimator holds a valid model.
    pub proof fn law_well_formed_is_valid(&self)
        requires
            self.wf(),
        ensures
            self@.is_valid(),
    {
    }

    /// Builds an estimator with every envelope at zero, or says why the
    /// configuration is refused. Nothing is built on a refusal.
    pub fn new(
        m: usize,
        g: usize,
        group_mapping: Vec<usize>,
        rho: Binary64,
        rho_g: Vec<Binary64>,
        beta_k: Vec<Binary64>,
        beta_g: Vec<Binary64>,
        k_k: Vec<Vec<Binary64>>,
    ) -> (r: Result<HretObserver, HretError>)
        ensures
            match r {
                Ok(observer) => {
                    &&& config_rejection(
                        m,
                        g,
                        group_mapping@,
                        rho,
                        rho_g@,
                        beta_k@,
                        beta_g@,
                        rows_of(k_k),
                    ) is None
                    &&& observer.wf()
                    &&& observer@ == initial_model(
                        g,
                        group_mapping@,
                        rho,
                        rho_g@,
                        beta_k@,
                        beta_g@,
                        rows_of(k_k),
                    )
                },
                Err(e) => config_rejection(
                    m,
                    g,
                    group_mapping@,
                    rho,
                    rho_g@,
                    beta_k@,
                    beta_g@,
                    rows_of(k_k),
                ) == Some(e->Configuration_0) && e is Configuration,
            },
    {
        match validate_positive(Field::ChannelCount, m) {
            Err(e) => return Err(HretError::Configuration(e)),
            Ok(_) => {},
        }
        match validate_positive(Field::GroupCount, g) {
            Err(e) => return Err(HretError::Configuration(e)),
            Ok(_) => {},
        }
        match validate_len(Field::GroupMapping, m, group_mapping.len()) {
            Err(e) => return Err(HretError::Configuration(e)),
            Ok(_) => {},
        }
        match validate_len(Field::RhoG, g, rho_g.len()) {
            Err(e) => return Err(HretError::Configuration(e)),
            Ok(_) => {},
        }
        match validate_len(Field::BetaK, m, beta_k.len()) {
            Err(e) => return Err(HretError::Configuration(e)),
            Ok(_) => {},
        }
        match validate_len(Field::BetaG, g, beta_g.len()) {
            Err(e) => return Err(HretError::Configuration(e)),
            Ok(_) => {},
        }
        match validate_forgetting_factor(Field::Rho, rho) {
            Err(e) => return Err(HretError::Configuration(e)),
            Ok(_) => {},
        }
        match validate_forgetting_factors(Field::RhoG, &rho_g) {
            Err(e) => return Err(HretError::Configuration(e)),
            Ok(_) => {},
        }
        match validate_non_negative_finite(Field::BetaK, &beta_k) {
            Err(e) => return Err(HretError::Configuration(e)),
            Ok(_) => {},
        }
        match validate_non_negative_finite(Field::BetaG, &beta_g) {
            Err(e) => return Err(HretError::Configuration(e)),
            Ok(_) => {},
        }
        let group_indices = match group_channels(&group_mapping, g) {
            Err(e) => return Err(HretError::Configuration(e)),
            Ok(lists) => lists,
        };
        match validate_gains(&k_k, m) {
            Err(e) => return Err(HretError::Configuration(e)),
            Ok(_) => {},
        }
        let s_k = zero_vector(m);
        let s_g = zero_vector(g);
        Ok(
            HretObserver {
                m,
                g,
                group_mapping,
                group_indices,
                rho,
                rho_g,
                beta_k,
                beta_g,
                s_k,
                s_g,
                k_k,
            },
        )
    }

    /// Takes one residual vector in. On success the envelopes advance and
    /// the correction, the weights and both sets of envelopes are handed
    /// back. A vector of the wrong length, or one that holds an infinity or
    /// a NaN, is refused and the estimator stays exactly as it was.
    pub fn update(&mut self, residuals: Vec<Binary64>) -> (r: Result<HretUpdate, HretError>)
        requires
            old(self).wf(),
        ensures
            final(self).wf(),
            match r {
                Ok(out) => {
                    &&& input_rejection(old(self)@.channels() as usize, residuals@) is None
                    &&& final(self)@ == old(self)@.stepped(residuals@)
                    &&& out.0@ == final(self)@.correction(residuals@)
                    &&& out.1@ == final(self)@.weights()
                    &&& out.2@ == final(self)@.s_k
                    &&& out.3@ == final(self)@.s_g
                },
                Err(e) => {
                    &&& e is Input
                    &&& input_rejection(old(self)@.channels() as usize, residuals@) == Some(
                        e->Input_0,
                    )
                    &&& *final(self) == *old(self)
                },
            },
    {
        match validate_input(self.m, &residuals) {
            Err(e) => return Err(HretError::Input(e)),
            Ok(_) => {},
        }
        proof {
            assert forall|j: int, i: int|
                0 <= j < self.group_indices.len() && 0 <= i < self.group_indices@[j].len()
                    implies (#[trigger] self.group_indices@[j]@[i]) < residuals.len() by {
                lemma_members_are_channels(self.group_mapping@, j as usize);
            }
            lemma_mapping_in_range(self.group_mapping@, self.g);
        }
        advance_channels(self.rho, &mut self.s_k, &residuals);
        advance_groups(&self.rho_g, &mut self.s_g, &self.group_indices, &residuals);
        assert(self.s_g@ =~= old(self)@.next_group_envelopes(residuals@));

        let w_k = trust_scores(&self.beta_k, &self.s_k);
        let w_g = trust_scores(&self.beta_g, &self.s_g);
        let hat_w_k = compose_trust(&w_k, &w_g, &self.group_mapping);
        let tilde_w_k = normalize_weights(&hat_w_k);

        let weighted_r = weigh(&tilde_w_k, &residuals);
        proof {
            assert(rows_of(self.k_k).len() == self.k_k.len());
            lemma_rows_have_length(rows_of(self.k_k), self.m);
            assert forall|row: int| 0 <= row < self.k_k.len() implies (#[trigger] self.k_k@[row]).len()
                == weighted_r.len() by {
                assert(rows_of(self.k_k)[row] == self.k_k@[row]@);
            }
        }
        let delta_x = apply_gains(&self.k_k, &weighted_r);

        let channel_envelopes = copy_of(&self.s_k);
        let group_envelopes = copy_of(&self.s_g);
        Ok((delta_x, tilde_w_k, channel_envelopes, group_envelopes))
    }

    /// Puts every envelope back to zero. The configuration stays.
    pub fn reset_envelopes(&mut self)
        requires
            old(self).wf(),
        ensures
            final(self).wf(),
            final(self)@ == old(self)@.reset(),
    {
        self.s_k = zero_vector(self.m);
        self.s_g = zero_vector(self.g);
    }

    /// The channel count `m`.
    pub fn channel_count(&self) -> (r: usize)
        requires
            self.wf(),
        ensures
            r == self@.channels(),
    {
        self.m
    }

    /// The group count `g`.
    pub fn group_count(&self) -> (r: usize)
        ensures
            r == self@.groups,
    {
        self.g
    }

    /// The number of gain rows `p`, which is the length of a correction.
    pub fn state_dimension(&self) -> (r: usize)
        ensures
            r == self@.gains.len(),
    {
        self.k_k.len()
    }

    /// The group of each channel.
    pub fn group_mapping_vec(&self) -> (r: Vec<usize>)
        ensures
            r@ == self@.mapping,
    {
        let mut out: Vec<usize> = Vec::new();
        let mut i: usize = 0;
        while i < self.group_mapping.len()
            invariant
                i <= self.group_mapping.len(),
                out@ == self.group_mapping@.take(i as int),
            decreases self.group_mapping.len() - i,
        {
            out.push(self.group_mapping[i]);
            assert(out@ =~= self.group_mapping@.take(i + 1));
            i += 1;
        }
        assert(self.group_mapping@.take(self.group_mapping.len() as int) =~= self.group_mapping@);
        out
    }
}

/// Where no group index is out of range, every channel's group exists.
pub proof fn lemma_mapping_in_range(mapping: Seq<usize>, groups: usize)
    requires
        mapping.len() <= usize::MAX,
        first_index_where(mapping, out_of_range(groups)) is None,
    ensures
        forall|k: int| 0 <= k < mapping.len() ==> (#[trigger] mapping[k]) < groups,
{
    crate::validate::lemma_first_index_where(mapping, out_of_range(groups));
    assert forall|k: int| 0 <= k < mapping.len() implies (#[trigger] mapping[k]) < groups by {
        assert(!(out_of_range(groups))(mapping[k]));
    }
}

/// Where no gain row is refused, every row has one gain per channel.
pub proof fn lemma_rows_have_length(gains: Seq<Seq<Binary64>>, channels: usize)
    requires
        gains.len() <= usize::MAX,
        gains_rejection(gains, channels) is None,
    ensures
        forall|row: int| 0 <= row < gains.len() ==> (#[trigger] gains[row]).len() == channels,
{
    crate::validate::lemma_first_index_where(gains, row_refused(channels));
    match first_index_where(gains, row_refused(channels)) {
        Some(row) => {
            assert((row_refused(channels))(gains[row as int]));
        },
        None => {
            assert forall|row: int| 0 <= row < gains.len() implies (#[trigger] gains[row]).len()
                == channels by {
                assert(!(row_refused(channels))(gains[row]));
            }
        },
    }
}

/// Lists the channels of each group, in increasing order, or names the
/// first channel whose group does not exist.
pub fn group_channels(mapping: &Vec<usize>, groups: usize) -> (r: Result<
    Vec<Vec<usize>>,
    ConfigurationError,
>)
    ensures
        match r {
            Ok(lists) => {
                &&& first_index_where(mapping@, out_of_range(groups)) is None
                &&& lists@.len() == groups
                &&& forall|j: int|
                    0 <= j < groups ==> (#[trigger] lists@[j])@ == members(mapping@, j as usize)
            },
            Err(e) => {
                &&& first_index_where(mapping@, out_of_range(groups)) is Some
                &&& e == (ConfigurationError::GroupOutOfRange {
                    channel: first_index_where(mapping@, out_of_range(groups))->Some_0,
                    group: mapping@[first_index_where(mapping@, out_of_range(groups))->Some_0 as int],
                    groups,
                })
            },
        },
{
    let mut lists: Vec<Vec<usize>> = Vec::new();
    let mut j: usize = 0;
    while j < groups
        invariant
            j <= groups,
            lists@.len() == j,
            forall|a: int| 0 <= a < j ==> (#[trigger] lists@[a])@ == Seq::<usize>::empty(),
        decreases groups - j,
    {
        lists.push(Vec::new());
        j += 1;
    }
    let mut channel: usize = 0;
    assert(mapping@.take(0) =~= Seq::<usize>::empty());
    while channel < mapping.len()
        invariant
            channel <= mapping.len(),
            lists@.len() == groups,
            forall|a: int| 0 <= a < channel ==> !(out_of_range(groups))(#[trigger] mapping@[a]),
            forall|a: int|
                0 <= a < groups ==> (#[trigger] lists@[a])@ == members(
                    mapping@.take(channel as int),
                    a as usize,
                ),
        decreases mapping.len() - channel,
    {
        let group = mapping[channel];
        if group >= groups {
            proof {
                lemma_first_index_is(mapping@, out_of_range(groups), channel);
            }
            return Err(ConfigurationError::GroupOutOfRange { channel, group, groups });
        }
        proof {
            assert(mapping@.take(channel + 1).drop_last() =~= mapping@.take(channel as int));
            assert(mapping@.take(channel + 1).last() == group);
        }
        let list = &mut lists[group];
        list.push(channel);
        channel += 1;
    }
    proof {
        assert(mapping@.take(mapping.len() as int) =~= mapping@);
        lemma_first_index_none(mapping@, out_of_range(groups));
    }
    Ok(lists)
}

/// Checks the gain matrix: at least one row, every row with one finite gain
/// per channel.
pub fn validate_gains(gains: &Vec<Vec<Binary64>>, channels: usize) -> (r: Result<
    (),
    ConfigurationError,
>)
    ensures
        r == (if gains.len() == 0 {
            Err(ConfigurationError::EmptyGainMatrix)
        } else {
            match gains_rejection(rows_of(*gains), channels) {
                Some(e) => Err(e),
                None => Ok(()),
            }
        }),
{
    if gains.len() == 0 {
        return Err(ConfigurationError::EmptyGainMatrix);
    }
    let ghost rows = rows_of(*gains);
    let mut row: usize = 0;
    while row < gains.len()
        invariant
            row <= gains.len(),
            rows == rows_of(*gains),
            forall|a: int| 0 <= a < row ==> !(row_refused(channels))(#[trigger] rows[a]),
        decreases gains.len() - row,
    {
        let ghost this = rows[row as int];
        assert(this == gains@[row as int]@);
        match validate_len(Field::GainRow(row), channels, gains[row].len()) {
            Err(e) => {
                proof {
                    lemma_first_index_is(rows, row_refused(channels), row);
                }
                return Err(e);
            },
            Ok(_) => {},
        }
        match find_violation(&gains[row], Rule::Finite) {
            Some(column) => {
                proof {
                    lemma_first_index_is(rows, row_refused(channels), row);
                }
                return Err(
                    ConfigurationError::GainNotFinite {
                        row,
                        column,
                        bits: gains[row][column].bits,
                    },
                );
            },
            None => {},
        }
        row += 1;
    }
    proof {
        lemma_first_index_none(rows, row_refused(channels));
    }
    Ok(())
}

} // verus!
