//! What holds of the estimators in general, proved from their models.
use vstd::prelude::*;
use crate::binary64::Binary64;
use crate::envelope::is_finite_non_negative;
use crate::envelope::is_forgetting_factor;
use crate::hret::config_rejection;
use crate::hret::gains_rejection;
use crate::hret::initial_model;
use crate::hret::out_of_range;
use crate::hret::row_refused;
use crate::hret::HretModel;
use crate::observer::DsfbModel;
use crate::trust::normalized;
use crate::trust::running_sum;
use crate::trust::softness_scores;
use crate::trust::total_is_usable;
use crate::trust::uniform_weight;
use crate::validate::first_index_where;
use crate::validate::first_violation;
use crate::validate::input_rejection;
use crate::validate::lemma_first_index_where;
use crate::validate::Rule;

verus! {

/// Normalisation keeps the number of entries.
pub proof fn law_one_weight_per_score(scores: Seq<Binary64>)
    ensures
        normalized(scores).len() == scores.len(),
{
}

/// Equal scores receive equal weights.
pub proof fn law_equal_scores_equal_weights(scores: Seq<Binary64>, i: int, j: int)
    requires
        0 <= i < scores.len(),
        0 <= j < scores.len(),
        scores[i] == scores[j],
    ensures
        normalized(scores)[i] == normalized(scores)[j],
{
}

/// Where the total score does not exceed the threshold, every weight is
/// `1 / n`, whatever the scores are.
pub proof fn law_uniform_fallback(scores: Seq<Binary64>, i: int)
    requires
        0 <= i < scores.len(),
        !total_is_usable(running_sum(scores)),
    ensures
        normalized(scores)[i] == uniform_weight(scores.len()),
{
}

/// Where the total score exceeds the threshold, every weight is its score
/// over the total.
pub proof fn law_weights_are_shares(scores: Seq<Binary64>, i: int)
    requires
        0 <= i < scores.len(),
        total_is_usable(running_sum(scores)),
    ensures
        normalized(scores)[i] == scores[i].over(running_sum(scores)),
{
}

/// Symmetry of the hierarchical estimator: where all channels have the same
/// envelope and sensitivity, and all groups have the same envelope and
/// sensitivity, all channels have the same weight; under the uniform
/// fallback that weight is `1 / m`.
pub proof fn law_hierarchical_symmetry(model: HretModel, i: int, j: int)
    requires
        model.is_valid(),
        0 <= i < model.channels(),
        0 <= j < model.channels(),
        forall|a: int, b: int|
            0 <= a < model.channels() && 0 <= b < model.channels() ==> model.s_k[a] == model.s_k[b]
                && model.beta_k[a] == model.beta_k[b],
        forall|a: int, b: int|
            0 <= a < model.groups && 0 <= b < model.groups ==> model.s_g[a] == model.s_g[b]
                && model.beta_g[a] == model.beta_g[b],
    ensures
        model.weights()[i] == model.weights()[j],
        !total_is_usable(running_sum(model.scores())) ==> model.weights()[i] == uniform_weight(
            model.channels(),
        ),
{
    crate::hret::lemma_mapping_in_range(model.mapping, model.groups);
    let gi = model.mapping[i] as int;
    let gj = model.mapping[j] as int;
    assert(model.s_g[gi] == model.s_g[gj] && model.beta_g[gi] == model.beta_g[gj]);
    assert(model.s_k[i] == model.s_k[j] && model.beta_k[i] == model.beta_k[j]);
    assert(model.scores()[i] == model.scores()[j]);
}

/// Symmetry of the kinematic observer: channels with the same envelope have
/// the same softness-additive weight.
pub proof fn law_kinematic_symmetry(sigma0: Binary64, envelopes: Seq<Binary64>, i: int, j: int)
    requires
        0 <= i < envelopes.len(),
        0 <= j < envelopes.len(),
        envelopes[i] == envelopes[j],
    ensures
        normalized(softness_scores(sigma0, envelopes, envelopes.len()))[i] == normalized(
            softness_scores(sigma0, envelopes, envelopes.len()),
        )[j],
{
}

/// The inputs in turn, taken in by the hierarchical estimator.
pub open spec fn run(model: HretModel, inputs: Seq<Seq<Binary64>>) -> HretModel
    decreases inputs.len(),
{
    if inputs.len() == 0 {
        model
    } else {
        run(model, inputs.drop_last()).stepped(inputs.last())
    }
}

/// A reset estimator is the freshly constructed one: whatever it went
/// through before, its envelopes, weights and corrections over any further
/// inputs are those of a new estimator of the same configuration.
pub proof fn law_reset_is_fresh(model: HretModel, inputs: Seq<Seq<Binary64>>)
    requires
        model.is_valid(),
    ensures
        model.reset() == initial_model(
            model.groups,
            model.mapping,
            model.rho,
            model.rho_g,
            model.beta_k,
            model.beta_g,
            model.gains,
        ),
        run(model.reset(), inputs) == run(
            initial_model(
                model.groups,
                model.mapping,
                model.rho,
                model.rho_g,
                model.beta_k,
                model.beta_g,
                model.gains,
            ),
            inputs,
        ),
{
    assert(model.reset().s_k =~= initial_model(
        model.groups,
        model.mapping,
        model.rho,
        model.rho_g,
        model.beta_k,
        model.beta_g,
        model.gains,
    ).s_k);
    assert(model.reset().s_g =~= initial_model(
        model.groups,
        model.mapping,
        model.rho,
        model.rho_g,
        model.beta_k,
        model.beta_g,
        model.gains,
    ).s_g);
}

/// Taking inputs in changes the envelopes only: the configuration of the
/// estimator stays what it was, and the model stays valid.
pub proof fn law_configuration_is_fixed(model: HretModel, residuals: Seq<Binary64>)
    requires
        model.is_valid(),
    ensures
        model.stepped(residuals).is_valid(),
        model.stepped(residuals).mapping == model.mapping,
        model.stepped(residuals).groups == model.groups,
        model.stepped(residuals).rho == model.rho,
        model.stepped(residuals).rho_g == model.rho_g,
        model.stepped(residuals).beta_k == model.beta_k,
        model.stepped(residuals).beta_g == model.beta_g,
        model.stepped(residuals).gains == model.gains,
        model.reset().is_valid(),
{
}

/// One weight per channel, one correction entry per gain row.
pub proof fn law_output_shapes(model: HretModel, residuals: Seq<Binary64>)
    requires
        model.is_valid(),
    ensures
        model.weights().len() == model.channels(),
        model.correction(residuals).len() == model.gains.len(),
        model.gains.len() >= 1,
        model.stepped(residuals).s_k.len() == model.channels(),
        model.stepped(residuals).s_g.len() == model.groups,
{
}

/// An input is refused exactly if its length is not the channel count or
/// one of its entries is infinite or NaN.
pub proof fn law_refused_inputs(channels: usize, values: Seq<Binary64>)
    requires
        values.len() <= usize::MAX,
    ensures
        input_rejection(channels, values) is Some <==> (values.len() != channels || exists|k: int|
            0 <= k < values.len() && !(#[trigger] values[k]).is_finite_spec()),
{
    lemma_first_index_where(values, Rule::Finite.refuses());
    if values.len() == channels {
        match first_violation(values, Rule::Finite) {
            Some(i) => {
                assert(!values[i as int].is_finite_spec());
            },
            None => {
                assert forall|k: int| 0 <= k < values.len() implies (#[trigger] values[k])
                    .is_finite_spec() by {
                    assert(!(Rule::Finite.refuses())(values[k]));
                }
            },
        }
    }
}

/// A step of the kinematic observer is refused exactly if the measurement
/// vector has another length than the channel count, or a measurement, the
/// time step or a residual against the prediction is infinite or NaN. A
/// step that is taken therefore brings no such number into an envelope.
pub proof fn law_refused_steps(model: DsfbModel, measurements: Seq<Binary64>, dt: Binary64)
    requires
        model.channels() <= usize::MAX,
    ensures
        model.rejection(measurements, dt) is Some <==> (measurements.len() != model.channels()
            || (exists|k: int|
            0 <= k < measurements.len() && !(#[trigger] measurements[k]).is_finite_spec())
            || !dt.is_finite_spec() || (exists|k: int|
            0 <= k < measurements.len() && !(#[trigger] model.residuals(
                measurements,
                dt,
            )[k]).is_finite_spec())),
{
    let residuals = model.residuals(measurements, dt);
    if measurements.len() == model.channels() {
        law_refused_inputs(model.channels() as usize, measurements);
        law_no_violation(residuals, Rule::Finite);
        if first_violation(residuals, Rule::Finite) is None {
            assert forall|k: int| 0 <= k < measurements.len() implies (#[trigger] residuals[k])
                .is_finite_spec() by {
                assert(Rule::Finite.admits(residuals[k]));
            }
        } else {
            lemma_first_index_where(residuals, Rule::Finite.refuses());
            let i = first_violation(residuals, Rule::Finite)->Some_0;
            assert(!residuals[i as int].is_finite_spec());
        }
    }
}

/// Every entry of `xs` meets `rule`.
pub open spec fn all_admitted(xs: Seq<Binary64>, rule: Rule) -> bool {
    forall|k: int| 0 <= k < xs.len() ==> rule.admits(#[trigger] xs[k])
}

/// No entry breaks the rule exactly if every entry meets it.
pub proof fn law_no_violation(xs: Seq<Binary64>, rule: Rule)
    requires
        xs.len() <= usize::MAX,
    ensures
        first_violation(xs, rule) is None <==> all_admitted(xs, rule),
{
    lemma_first_index_where(xs, rule.refuses());
    match first_violation(xs, rule) {
        Some(i) => {
            assert((rule.refuses())(xs[i as int]));
            assert(!rule.admits(xs[i as int]));
        },
        None => {
            assert forall|k: int| 0 <= k < xs.len() implies rule.admits(#[trigger] xs[k]) by {
                assert(!(rule.refuses())(xs[k]));
            }
        },
    }
}

/// The configurations that construction accepts: positive counts, vectors
/// of the right lengths, forgetting factors strictly between 0 and 1,
/// finite sensitivities that are not negative, every channel in a group
/// that exists, and at least one gain row, each row with one finite gain
/// per channel. Every other configuration is refused.
pub proof fn law_accepted_configurations(
    m: usize,
    g: usize,
    mapping: Seq<usize>,
    rho: Binary64,
    rho_g: Seq<Binary64>,
    beta_k: Seq<Binary64>,
    beta_g: Seq<Binary64>,
    gains: Seq<Seq<Binary64>>,
)
    requires
        mapping.len() <= usize::MAX,
        rho_g.len() <= usize::MAX,
        beta_k.len() <= usize::MAX,
        beta_g.len() <= usize::MAX,
        gains.len() <= usize::MAX,
        forall|row: int| 0 <= row < gains.len() ==> (#[trigger] gains[row]).len() <= usize::MAX,
    ensures
        config_rejection(m, g, mapping, rho, rho_g, beta_k, beta_g, gains) is None <==> {
            &&& m > 0
            &&& g > 0
            &&& mapping.len() == m
            &&& rho_g.len() == g
            &&& beta_k.len() == m
            &&& beta_g.len() == g
            &&& is_forgetting_factor(rho)
            &&& forall|j: int| 0 <= j < rho_g.len() ==> is_forgetting_factor(#[trigger] rho_g[j])
            &&& forall|k: int|
                0 <= k < beta_k.len() ==> is_finite_non_negative(#[trigger] beta_k[k])
            &&& forall|j: int|
                0 <= j < beta_g.len() ==> is_finite_non_negative(#[trigger] beta_g[j])
            &&& forall|k: int| 0 <= k < mapping.len() ==> (#[trigger] mapping[k]) < g
            &&& gains.len() >= 1
            &&& forall|row: int| 0 <= row < gains.len() ==> (#[trigger] gains[row]).len() == m
            &&& forall|row: int, column: int|
                0 <= row < gains.len() && 0 <= column < gains[row].len() ==> (
                #[trigger] gains[row][column]).is_finite_spec()
        },
{
    law_no_violation(rho_g, Rule::ForgettingFactor);
    law_no_violation(beta_k, Rule::FiniteNonNegative);
    law_no_violation(beta_g, Rule::FiniteNonNegative);
    lemma_first_index_where(mapping, out_of_range(g));
    lemma_first_index_where(gains, row_refused(m));
    match first_index_where(mapping, out_of_range(g)) {
        Some(c) => {
            assert((out_of_range(g))(mapping[c as int]));
        },
        None => {
            assert forall|k: int| 0 <= k < mapping.len() implies (#[trigger] mapping[k]) < g by {
                assert(!(out_of_range(g))(mapping[k]));
            }
        },
    }
    match first_index_where(gains, row_refused(m)) {
        Some(r) => {
            let row = gains[r as int];
            assert((row_refused(m))(row));
            law_no_violation(row, Rule::Finite);
            if row.len() == m {
                let c = choose|c: int| 0 <= c < row.len() && !Rule::Finite.admits(#[trigger] row[c]);
                assert(!gains[r as int][c].is_finite_spec());
            }
            assert(gains_rejection(gains, m) is Some);
        },
        None => {
            assert forall|row: int| 0 <= row < gains.len() implies (#[trigger] gains[row]).len()
                == m by {
                assert(!(row_refused(m))(gains[row]));
            }
            assert forall|row: int, column: int|
                0 <= row < gains.len() && 0 <= column < gains[row].len() implies (
            #[trigger] gains[row][column]).is_finite_spec() by {
                assert(!(row_refused(m))(gains[row]));
                law_no_violation(gains[row], Rule::Finite);
                assert(Rule::Finite.admits(gains[row][column]));
            }
        },
    }
}

/// A mapping of the wrong length, or one that names a group that does not
/// exist, is refused at construction.
pub proof fn law_bad_mapping_is_refused(
    m: usize,
    g: usize,
    mapping: Seq<usize>,
    rho: Binary64,
    rho_g: Seq<Binary64>,
    beta_k: Seq<Binary64>,
    beta_g: Seq<Binary64>,
    gains: Seq<Seq<Binary64>>,
)
    requires
        mapping.len() <= usize::MAX,
        mapping.len() != m || exists|k: int| 0 <= k < mapping.len() && #[trigger] mapping[k] >= g,
    ensures
        config_rejection(m, g, mapping, rho, rho_g, beta_k, beta_g, gains) is Some,
{
    if mapping.len() == m {
        lemma_first_index_where(mapping, out_of_range(g));
        let k = choose|k: int| 0 <= k < mapping.len() && #[trigger] mapping[k] >= g;
        if first_index_where(mapping, out_of_range(g)) is None {
            assert(!(out_of_range(g))(mapping[k]));
        }
    }
}

/// A step of the kinematic observer keeps the parameters and the channel
/// count.
pub proof fn law_kinematic_configuration_is_fixed(
    model: DsfbModel,
    measurements: Seq<Binary64>,
    dt: Binary64,
)
    requires
        measurements.len() == model.channels(),
    ensures
        model.stepped(measurements, dt).params == model.params,
        model.stepped(measurements, dt).channels() == model.channels(),
        model.stepped(measurements, dt).weights.len() == model.channels(),
{
}


/// A forgetting factor is a finite number whose value lies strictly between
/// zero and one.
pub proof fn law_forgetting_factor_range(rho: Binary64)
    ensures
        is_forgetting_factor(rho) <==> rho.is_finite_spec() && 0 < rho.scaled_value()
            < vstd::arithmetic::power2::pow2(1074),
{
    crate::binary64::lemma_one_is_one();
    if !rho.is_nan_spec() {
        crate::binary64::lemma_rank_orders_by_value(
            crate::binary64::number(crate::binary64::ZERO_BITS),
            rho,
        );
        crate::binary64::lemma_rank_orders_by_value(
            rho,
            crate::binary64::number(crate::binary64::ONE_BITS),
        );
    }
}

/// A sensitivity is accepted exactly if it is a finite number whose value
/// is not negative.
pub proof fn law_sensitivity_range(beta: Binary64)
    ensures
        is_finite_non_negative(beta) <==> beta.is_finite_spec() && beta.scaled_value() >= 0,
{
    crate::binary64::lemma_one_is_one();
    if !beta.is_nan_spec() {
        crate::binary64::lemma_rank_orders_by_value(
            crate::binary64::number(crate::binary64::ZERO_BITS),
            beta,
        );
    }
}

} // verus!
