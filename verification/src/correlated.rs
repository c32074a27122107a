//! A correlated group fault, seen by two estimators side by side: one that
//! trusts each channel on its own, and one that also distrusts the group a
//! channel belongs to. Eight channels in two groups of four track one
//! scalar; each estimate is the trust-weighted mean of the measurements.
use vstd::prelude::*;
use crate::binary64::Binary64;
use crate::binary64::count_number;
use crate::binary64::number;
use crate::binary64::ZERO_BITS;
use crate::hret::advance_channels;
use crate::hret::advance_groups;
use crate::hret::compose_trust;
use crate::hret::composed;
use crate::hret::dot;
use crate::hret::dot_product;
use crate::hret::group_channels;
use crate::hret::group_envelope_next;
use crate::hret::lemma_members_are_channels;
use crate::hret::members;
use crate::hret::out_of_range;
use crate::hret::trust_scores;
use crate::hret::trusts;
use crate::hret::zero_vector;
use crate::hret::zeros;
use crate::observer::residuals_against;
use crate::trust::advanced_envelopes;
use crate::trust::running_sum;
use crate::trust::sum;
use crate::validate::lemma_first_index_none;

verus! {

/// Number of channels.
pub const CHANNELS: usize = 8;

/// Number of groups.
pub const GROUPS: usize = 2;

/// Channels in the first group, the one that the fault strikes.
pub const FIRST_GROUP_SIZE: usize = 4;

/// Pattern of `0.95`, the forgetting factor of every envelope.
pub const RHO_BITS: u64 = 0x3FEE_6666_6666_6666;

/// Pattern of `4.0`, the sensitivity of every channel and group.
pub const BETA_BITS: u64 = 0x4010_0000_0000_0000;

/// Pattern of `2.0`, the height of the fault.
pub const FAULT_AMPLITUDE_BITS: u64 = 0x4000_0000_0000_0000;

/// First step of the fault.
pub const FAULT_START: usize = 200;

/// Length of the fault in steps.
pub const FAULT_LENGTH: usize = 40;

/// The group of each channel: the first four in group 0, the others in
/// group 1.
pub open spec fn group_layout() -> Seq<usize> {
    seq![0usize, 0usize, 0usize, 0usize, 1usize, 1usize, 1usize, 1usize]
}

/// Whether the fault strikes `channel` at `step`.
pub open spec fn fault_strikes(step: usize, channel: usize) -> bool {
    FAULT_START <= step < FAULT_START + FAULT_LENGTH && channel < FIRST_GROUP_SIZE
}

/// Whether the fault strikes `channel` at `step`.
pub fn is_corrupted(step: usize, channel: usize) -> (r: bool)
    ensures
        r == fault_strikes(step, channel),
{
    step >= FAULT_START && step < FAULT_START + FAULT_LENGTH && channel < FIRST_GROUP_SIZE
}

/// The measurement of a channel: the truth plus noise, plus the fault where
/// it strikes and `+0.0` where it does not.
pub open spec fn faulty_measurement(x_true: Binary64, noise: Binary64, struck: bool) -> Binary64 {
    x_true.plus(noise).plus(
        if struck {
            number(FAULT_AMPLITUDE_BITS)
        } else {
            number(ZERO_BITS)
        },
    )
}

/// The measurement of `channel` at `step`.
pub fn measure(x_true: Binary64, noise: Binary64, step: usize, channel: usize) -> (r: Binary64)
    ensures
        r == faulty_measurement(x_true, noise, fault_strikes(step, channel)),
{
    let fault = if is_corrupted(step, channel) {
        Binary64::from_bits(FAULT_AMPLITUDE_BITS)
    } else {
        Binary64::zero()
    };
    x_true.add_rounded(noise).add_rounded(fault)
}

/// `n` sensitivities of `4.0`.
pub open spec fn sensitivities(n: nat) -> Seq<Binary64> {
    Seq::new(n, |i: int| number(BETA_BITS))
}

/// The trust-weighted mean of the values, or the previous estimate where
/// the weights do not sum to more than zero.
pub open spec fn fused(weights: Seq<Binary64>, values: Seq<Binary64>, previous: Binary64)
    -> Binary64 {
    if running_sum(weights).exceeds(number(ZERO_BITS)) {
        dot(weights, values).over(running_sum(weights))
    } else {
        previous
    }
}

/// Fuses the values into one estimate by their weights.
pub fn fuse(weights: &Vec<Binary64>, values: &Vec<Binary64>, previous: Binary64) -> (r: Binary64)
    requires
        weights.len() == values.len(),
    ensures
        r == fused(weights@, values@, previous),
{
    let sum_w = sum(weights);
    let sum_wy = dot_product(weights, values);
    if sum_w.gt(Binary64::zero()) {
        sum_wy.div_rounded(sum_w)
    } else {
        previous
    }
}

/// Mean of the first `FIRST_GROUP_SIZE` weights.
pub open spec fn first_group_mean(weights: Seq<Binary64>) -> Binary64 {
    running_sum(weights.take(FIRST_GROUP_SIZE as int)).over(count_number(FIRST_GROUP_SIZE as nat))
}

fn mean_of_first_group(weights: &Vec<Binary64>) -> (r: Binary64)
    requires
        weights.len() >= FIRST_GROUP_SIZE,
    ensures
        r == first_group_mean(weights@),
{
    let ghost head = weights@.take(FIRST_GROUP_SIZE as int);
    let mut acc = Binary64::zero();
    let mut k: usize = 0;
    while k < FIRST_GROUP_SIZE
        invariant
            k <= FIRST_GROUP_SIZE,
            weights.len() >= FIRST_GROUP_SIZE,
            head == weights@.take(FIRST_GROUP_SIZE as int),
            acc == running_sum(head.take(k as int)),
        decreases FIRST_GROUP_SIZE - k,
    {
        proof {
            assert(head.take(k + 1).drop_last() =~= head.take(k as int));
        }
        acc = acc.add_rounded(weights[k]);
        k += 1;
    }
    proof {
        assert(head.take(FIRST_GROUP_SIZE as int) =~= head);
    }
    acc.div_rounded(Binary64::from_count(FIRST_GROUP_SIZE))
}

/// The two estimators as a mathematical value.
pub struct CorrelatedModel {
    /// Estimate of the channel-only estimator.
    pub x_hat_channel: Binary64,
    /// Estimate of the hierarchical estimator.
    pub x_hat_hier: Binary64,
    /// Channel envelopes of the channel-only estimator.
    pub envelope_channel: Seq<Binary64>,
    /// Channel envelopes of the hierarchical estimator.
    pub envelope_hier: Seq<Binary64>,
    /// Group envelopes of the hierarchical estimator.
    pub group_envelope: Seq<Binary64>,
}

/// What one step records.
#[derive(Clone, Copy, Debug)]
pub struct CorrelatedRecord {
    pub error_channel_only: Binary64,
    pub error_hierarchical: Binary64,
    pub mean_group0_weight_channel_only: Binary64,
    pub mean_group0_weight_hierarchical: Binary64,
    pub group_weight: Binary64,
}

impl CorrelatedModel {
    /// Both estimates at zero, every envelope at zero.
    pub open spec fn initial() -> CorrelatedModel {
        CorrelatedModel {
            x_hat_channel: number(ZERO_BITS),
            x_hat_hier: number(ZERO_BITS),
            envelope_channel: zeros(CHANNELS as nat),
            envelope_hier: zeros(CHANNELS as nat),
            group_envelope: zeros(GROUPS as nat),
        }
    }

    /// Channel envelopes of the channel-only estimator after the step.
    pub open spec fn next_envelope_channel(self, ys: Seq<Binary64>) -> Seq<Binary64> {
        advanced_envelopes(
            number(RHO_BITS),
            self.envelope_channel,
            residuals_against(ys, self.x_hat_channel),
        )
    }

    /// Weights of the channel-only estimator in the step.
    pub open spec fn weights_channel(self, ys: Seq<Binary64>) -> Seq<Binary64> {
        trusts(sensitivities(CHANNELS as nat), self.next_envelope_channel(ys))
    }

    /// Channel envelopes of the hierarchical estimator after the step.
    pub open spec fn next_envelope_hier(self, ys: Seq<Binary64>) -> Seq<Binary64> {
        advanced_envelopes(
            number(RHO_BITS),
            self.envelope_hier,
            residuals_against(ys, self.x_hat_hier),
        )
    }

    /// Group envelopes after the step.
    pub open spec fn next_group_envelope(self, ys: Seq<Binary64>) -> Seq<Binary64> {
        Seq::new(
            GROUPS as nat,
            |j: int|
                group_envelope_next(
                    number(RHO_BITS),
                    self.group_envelope[j],
                    residuals_against(ys, self.x_hat_hier),
                    members(group_layout(), j as usize),
                ),
        )
    }

    /// Trust of each group in the step.
    pub open spec fn group_weights(self, ys: Seq<Binary64>) -> Seq<Binary64> {
        trusts(sensitivities(GROUPS as nat), self.next_group_envelope(ys))
    }

    /// Weights of the hierarchical estimator in the step: channel trust
    /// times group trust, not normalised.
    pub open spec fn weights_hier(self, ys: Seq<Binary64>) -> Seq<Binary64> {
        composed(
            trusts(sensitivities(CHANNELS as nat), self.next_envelope_hier(ys)),
            self.group_weights(ys),
            group_layout(),
        )
    }

    /// The estimators after a step with measurements `ys`.
    pub open spec fn stepped(self, ys: Seq<Binary64>) -> CorrelatedModel {
        CorrelatedModel {
            x_hat_channel: fused(self.weights_channel(ys), ys, self.x_hat_channel),
            x_hat_hier: fused(self.weights_hier(ys), ys, self.x_hat_hier),
            envelope_channel: self.next_envelope_channel(ys),
            envelope_hier: self.next_envelope_hier(ys),
            group_envelope: self.next_group_envelope(ys),
        }
    }

    /// What a step with measurements `ys` of the truth `x_true` records.
    pub open spec fn record(self, ys: Seq<Binary64>, x_true: Binary64) -> CorrelatedRecord {
        CorrelatedRecord {
            error_channel_only: self.stepped(ys).x_hat_channel.minus(x_true).magnitude(),
            error_hierarchical: self.stepped(ys).x_hat_hier.minus(x_true).magnitude(),
            mean_group0_weight_channel_only: first_group_mean(self.weights_channel(ys)),
            mean_group0_weight_hierarchical: first_group_mean(self.weights_hier(ys)),
            group_weight: self.group_weights(ys)[0],
        }
    }
}

/// The two estimators of the correlated-fault experiment.
#[derive(Debug)]
pub struct CorrelatedFault {
    x_hat_channel: Binary64,
    x_hat_hier: Binary64,
    envelope_channel: Vec<Binary64>,
    envelope_hier: Vec<Binary64>,
    group_envelope: Vec<Binary64>,
    mapping: Vec<usize>,
    groups: Vec<Vec<usize>>,
    beta_k: Vec<Binary64>,
    beta_g: Vec<Binary64>,
    rho_g: Vec<Binary64>,
}

impl View for CorrelatedFault {
    type V = CorrelatedModel;

    closed spec fn view(&self) -> CorrelatedModel {
        CorrelatedModel {
            x_hat_channel: self.x_hat_channel,
            x_hat_hier: self.x_hat_hier,
            envelope_channel: self.envelope_channel@,
            envelope_hier: self.envelope_hier@,
            group_envelope: self.group_envelope@,
        }
    }
}

fn constant_vector(n: usize, x: Binary64) -> (r: Vec<Binary64>)
    ensures
        r@ == Seq::new(n as nat, |i: int| x),
{
    let mut out: Vec<Binary64> = Vec::new();
    let mut i: usize = 0;
    while i < n
        invariant
            i <= n,
            out@.len() == i,
            forall|j: int| 0 <= j < i ==> out@[j] == x,
        decreases n - i,
    {
        out.push(x);
        i += 1;
    }
    assert(out@ =~= Seq::new(n as nat, |i: int| x));
    out
}

impl CorrelatedFault {
    /// Eight channel envelopes on either side, two group envelopes, and the
    /// fixed layout and parameters.
    pub closed spec fn wf(&self) -> bool {
        &&& self.envelope_channel@.len() == CHANNELS
        &&& self.envelope_hier@.len() == CHANNELS
        &&& self.group_envelope@.len() == GROUPS
        &&& self.mapping@ == group_layout()
        &&& self.groups@.len() == GROUPS
        &&& forall|j: int|
            0 <= j < GROUPS ==> (#[trigger] self.groups@[j])@ == members(group_layout(), j as usize)
        &&& self.beta_k@ == sensitivities(CHANNELS as nat)
        &&& self.beta_g@ == sensitivities(GROUPS as nat)
        &&& self.rho_g@ == Seq::new(GROUPS as nat, |i: int| number(RHO_BITS))
    }

    /// The experiment before its first step.
    pub fn new() -> (r: CorrelatedFault)
        ensures
            r.wf(),
            r@ == CorrelatedModel::initial(),
    {
        let mut mapping: Vec<usize> = Vec::new();
        let mut k: usize = 0;
        while k < CHANNELS
            invariant
                k <= CHANNELS,
                mapping@.len() == k,
                forall|j: int|
                    0 <= j < k ==> mapping@[j] == (if j < FIRST_GROUP_SIZE {
                        0usize
                    } else {
                        1usize
                    }),
            decreases CHANNELS - k,
        {
            mapping.push(if k < FIRST_GROUP_SIZE { 0 } else { 1 });
            k += 1;
        }
        assert(mapping@ =~= group_layout());
        proof {
            assert forall|j: int| 0 <= j < mapping@.len() implies !(out_of_range(GROUPS))(
                #[trigger] mapping@[j],
            ) by {}
            lemma_first_index_none(mapping@, out_of_range(GROUPS));
        }
        let groups = match group_channels(&mapping, GROUPS) {
            Ok(lists) => lists,
            Err(_) => {
                assert(false);
                Vec::new()
            },
        };
        let rho = Binary64::from_bits(RHO_BITS);
        let beta = Binary64::from_bits(BETA_BITS);
        CorrelatedFault {
            x_hat_channel: Binary64::zero(),
            x_hat_hier: Binary64::zero(),
            envelope_channel: zero_vector(CHANNELS),
            envelope_hier: zero_vector(CHANNELS),
            group_envelope: zero_vector(GROUPS),
            mapping,
            groups,
            beta_k: constant_vector(CHANNELS, beta),
            beta_g: constant_vector(GROUPS, beta),
            rho_g: constant_vector(GROUPS, rho),
        }
    }

    /// The estimate of the channel-only estimator.
    pub fn channel_estimate(&self) -> (r: Binary64)
        ensures
            r == self@.x_hat_channel,
    {
        self.x_hat_channel
    }

    /// The estimate of the hierarchical estimator.
    pub fn hierarchical_estimate(&self) -> (r: Binary64)
        ensures
            r == self@.x_hat_hier,
    {
        self.x_hat_hier
    }

    /// Takes the eight measurements of one step in and records how both
    /// estimators fare against the truth.
    pub fn step(&mut self, measurements: &Vec<Binary64>, x_true: Binary64) -> (r: CorrelatedRecord)
        requires
            old(self).wf(),
            measurements.len() == CHANNELS,
        ensures
            final(self).wf(),
            final(self)@ == old(self)@.stepped(measurements@),
            r == old(self)@.record(measurements@, x_true),
    {
        let rho = Binary64::from_bits(RHO_BITS);

        let residuals_channel = residuals_of(measurements, self.x_hat_channel);
        advance_channels(rho, &mut self.envelope_channel, &residuals_channel);
        let weights_channel = trust_scores(&self.beta_k, &self.envelope_channel);
        self.x_hat_channel = fuse(&weights_channel, measurements, self.x_hat_channel);

        let residuals_hier = residuals_of(measurements, self.x_hat_hier);
        advance_channels(rho, &mut self.envelope_hier, &residuals_hier);
        proof {
            assert forall|j: int, i: int|
                0 <= j < self.groups.len() && 0 <= i < self.groups@[j].len() implies (
            #[trigger] self.groups@[j]@[i]) < residuals_hier.len() by {
                lemma_members_are_channels(group_layout(), j as usize);
            }
        }
        advance_groups(&self.rho_g, &mut self.group_envelope, &self.groups, &residuals_hier);
        assert(self.group_envelope@ =~= old(self)@.next_group_envelope(measurements@));
        let group_weights = trust_scores(&self.beta_g, &self.group_envelope);
        let channel_trust = trust_scores(&self.beta_k, &self.envelope_hier);
        let weights_hier = compose_trust(&channel_trust, &group_weights, &self.mapping);
        self.x_hat_hier = fuse(&weights_hier, measurements, self.x_hat_hier);

        CorrelatedRecord {
            error_channel_only: self.x_hat_channel.sub_rounded(x_true).abs(),
            error_hierarchical: self.x_hat_hier.sub_rounded(x_true).abs(),
            mean_group0_weight_channel_only: mean_of_first_group(&weights_channel),
            mean_group0_weight_hierarchical: mean_of_first_group(&weights_hier),
            group_weight: group_weights[0],
        }
    }
}

/// Each value minus the estimate.
pub fn residuals_of(values: &Vec<Binary64>, estimate: Binary64) -> (r: Vec<Binary64>)
    ensures
        r@ == residuals_against(values@, estimate),
{
    let mut out: Vec<Binary64> = Vec::new();
    let mut k: usize = 0;
    while k < values.len()
        invariant
            k <= values.len(),
            out@.len() == k,
            forall|j: int| 0 <= j < k ==> out@[j] == values@[j].minus(estimate),
        decreases values.len() - k,
    {
        out.push(values[k].sub_rounded(estimate));
        k += 1;
    }
    assert(out@ =~= residuals_against(values@, estimate));
    out
}

} // verus!
