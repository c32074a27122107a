//! Error metrics of a reconstruction method, gathered step by step.
use vstd::prelude::*;
use crate::bench::larger;
use crate::binary64::Binary64;
use crate::binary64::count_number;
use crate::binary64::number;
use crate::binary64::ZERO_BITS;

verus! {

/// Pattern of `0.9`: a group weight below this counts as weighed down.
pub const DOWNWEIGHT_LIMIT_BITS: u64 = 0x3FEC_CCCC_CCCC_CCCD;

/// What a method's errors sum up to.
#[derive(Clone, Copy, Debug)]
pub struct MethodMetrics {
    pub peak_err: Binary64,
    pub rms_err: Binary64,
    /// Share of group weights that were weighed down while no corruption
    /// acted; `None` for a method without weights.
    pub false_downweight_rate: Option<Binary64>,
}

/// The errors of a method so far.
#[derive(Clone, Copy, Debug)]
pub struct MetricsAccumulator {
    pub peak_err: Binary64,
    pub sum_sq: Binary64,
    pub count: usize,
    pub false_downweight_count: usize,
    pub false_downweight_total: usize,
    pub expects_weights: bool,
}

/// How many of the weights lie below `0.9`.
pub open spec fn count_downweighted(weights: Seq<Binary64>) -> nat
    decreases weights.len(),
{
    if weights.len() == 0 {
        0
    } else {
        count_downweighted(weights.drop_last()) + (if weights.last().below(
            number(DOWNWEIGHT_LIMIT_BITS),
        ) {
            1nat
        } else {
            0nat
        })
    }
}

/// No more weights are weighed down than there are weights.
pub proof fn lemma_count_downweighted_bound(weights: Seq<Binary64>)
    ensures
        count_downweighted(weights) <= weights.len(),
    decreases weights.len(),
{
    if weights.len() > 0 {
        lemma_count_downweighted_bound(weights.drop_last());
    }
}

impl MetricsAccumulator {
    /// No more weights were weighed down than were looked at.
    pub open spec fn wf(&self) -> bool {
        self.false_downweight_count <= self.false_downweight_total
    }

    /// An accumulator that has seen nothing.
    pub fn new(expects_weights: bool) -> (r: MetricsAccumulator)
        ensures
            r.wf(),
            r == (MetricsAccumulator {
                peak_err: number(ZERO_BITS),
                sum_sq: number(ZERO_BITS),
                count: 0,
                false_downweight_count: 0,
                false_downweight_total: 0,
                expects_weights,
            }),
    {
        MetricsAccumulator {
            peak_err: Binary64::zero(),
            sum_sq: Binary64::zero(),
            count: 0,
            false_downweight_count: 0,
            false_downweight_total: 0,
            expects_weights,
        }
    }

    /// Takes the error of one step in, and its group weights where they are
    /// looked at.
    pub fn observe(
        &mut self,
        err_norm: Binary64,
        group_weights: Option<&Vec<Binary64>>,
        corruption_active: bool,
    )
        requires
            old(self).wf(),
            old(self).count < usize::MAX,
            group_weights matches Some(weights) ==> old(self).false_downweight_total
                + weights.len() <= usize::MAX,
        ensures
            final(self).wf(),
            final(self).expects_weights == old(self).expects_weights,
            final(self).peak_err == larger(old(self).peak_err, err_norm),
            final(self).sum_sq == old(self).sum_sq.plus(err_norm.times(err_norm)),
            final(self).count == old(self).count + 1,
            match group_weights {
                Some(weights) => if old(self).expects_weights && !corruption_active {
                    final(self).false_downweight_total == old(self).false_downweight_total
                        + weights.len() && final(self).false_downweight_count == old(self).false_downweight_count + count_downweighted(weights@)
                } else {
                    final(self).false_downweight_total == old(self).false_downweight_total
                        && final(self).false_downweight_count == old(self).false_downweight_count
                },
                None => final(self).false_downweight_total == old(self).false_downweight_total
                    && final(self).false_downweight_count == old(self).false_downweight_count,
            },
    {
        if self.peak_err.is_nan() || err_norm.gt(self.peak_err) {
            self.peak_err = err_norm;
        }
        self.sum_sq = self.sum_sq.add_rounded(err_norm.mul_rounded(err_norm));
        self.count += 1;

        if self.expects_weights && !corruption_active {
            match group_weights {
                Some(weights) => {
                    let limit = Binary64::from_bits(DOWNWEIGHT_LIMIT_BITS);
                    let mut i: usize = 0;
                    assert(weights@.take(0) =~= Seq::<Binary64>::empty());
                    while i < weights.len()
                        invariant
                            i <= weights.len(),
                            limit == number(DOWNWEIGHT_LIMIT_BITS),
                            old(self).wf(),
                            old(self).false_downweight_total + weights.len() <= usize::MAX,
                            self.expects_weights == old(self).expects_weights,
                            self.peak_err == larger(old(self).peak_err, err_norm),
                            self.sum_sq == old(self).sum_sq.plus(err_norm.times(err_norm)),
                            self.count == old(self).count + 1,
                            self.false_downweight_total == old(self).false_downweight_total + i,
                            self.false_downweight_count == old(self).false_downweight_count
                                + count_downweighted(weights@.take(i as int)),
                        decreases weights.len() - i,
                    {
                        proof {
                            assert(weights@.take(i + 1).drop_last() =~= weights@.take(i as int));
                            lemma_count_downweighted_bound(weights@.take(i as int));
                        }
                        self.false_downweight_total += 1;
                        if weights[i].lt(limit) {
                            self.false_downweight_count += 1;
                        }
                        i += 1;
                    }
                    proof {
                        assert(weights@.take(weights.len() as int) =~= weights@);
                        lemma_count_downweighted_bound(weights@);
                    }
                },
                None => {},
            }
        }
    }

    /// The metrics of what was seen: the largest error, the root of the
    /// mean squared error (0 of no steps), and the share of weights that
    /// were weighed down (0 of no weights).
    pub open spec fn summed_up(&self) -> MethodMetrics {
        MethodMetrics {
            peak_err: self.peak_err,
            rms_err: if self.count > 0 {
                self.sum_sq.over(count_number(self.count as nat)).root()
            } else {
                number(ZERO_BITS)
            },
            false_downweight_rate: if self.expects_weights {
                if self.false_downweight_total > 0 {
                    Some(
                        count_number(self.false_downweight_count as nat).over(
                            count_number(self.false_downweight_total as nat),
                        ),
                    )
                } else {
                    Some(number(ZERO_BITS))
                }
            } else {
                None
            },
        }
    }

    pub fn finalize(&self) -> (r: MethodMetrics)
        ensures
            r == self.summed_up(),
    {
        let rms_err = if self.count > 0 {
            self.sum_sq.div_rounded(Binary64::from_count(self.count)).sqrt_rounded()
        } else {
            Binary64::zero()
        };
        let false_downweight_rate = if self.expects_weights {
            if self.false_downweight_total > 0 {
                Some(
                    Binary64::from_count(self.false_downweight_count).div_rounded(
                        Binary64::from_count(self.false_downweight_total),
                    ),
                )
            } else {
                Some(Binary64::zero())
            }
        } else {
            None
        };
        MethodMetrics { peak_err: self.peak_err, rms_err, false_downweight_rate }
    }
}

impl Default for MetricsAccumulator {
    fn default() -> (r: MetricsAccumulator)
        ensures
            r.wf(),
            r == (MetricsAccumulator {
                peak_err: number(ZERO_BITS),
                sum_sq: number(ZERO_BITS),
                count: 0,
                false_downweight_count: 0,
                false_downweight_total: 0,
                expects_weights: false,
            }),
    {
        MetricsAccumulator::new(false)
    }
}

} // verus!
