//! Curves over the parameter grid: where a curve first crosses a level,
//! which grid points stand for a regime, and how far two curves lie apart.
use vstd::prelude::*;
use crate::binary64::Binary64;
use crate::binary64::number;
use crate::binary64::ONE_BITS;
use crate::binary64::ZERO_BITS;
use crate::sim::peak;
use crate::sweep_config::AddError;
use crate::trust::running_sum;
use crate::validate::first_index_where;
use crate::validate::lemma_first_index_is;
use crate::validate::lemma_first_index_none;

verus! {

/// Pattern of `0.05`: an escape rate up to this is bounded.
pub const RLT_BOUNDED_THRESHOLD_BITS: u64 = 0x3FA9_9999_9999_999A;

/// Pattern of `0.95`: an escape rate from this on is expanding.
pub const RLT_EXPANDING_THRESHOLD_BITS: u64 = 0x3FEE_6666_6666_6666;

/// Pattern of `0.5`, the level at which the phase boundary is read.
pub const HALF_LEVEL_BITS: u64 = 0x3FE0_0000_0000_0000;

/// Pattern of `0.1`, the lower level of the transition.
pub const LOW_LEVEL_BITS: u64 = 0x3FB9_9999_9999_999A;

/// Pattern of `0.9`, the upper level of the transition.
pub const HIGH_LEVEL_BITS: u64 = 0x3FEC_CCCC_CCCC_CCCD;

/// The numbers that are at least `level`.
pub open spec fn reaches_level(level: Binary64) -> spec_fn(Binary64) -> bool {
    |x: Binary64| x.at_least(level)
}

/// The numbers that are at most `level`.
pub open spec fn stays_under(level: Binary64) -> spec_fn(Binary64) -> bool {
    |x: Binary64| x.at_most(level)
}

/// The first index, if any, at which the curve is at least `level`
/// (`rising`) or at most `level` (not `rising`).
pub fn first_index_at(values: &Vec<Binary64>, level: Binary64, rising: bool) -> (r: Option<usize>)
    ensures
        r == first_index_where(
            values@,
            if rising {
                reaches_level(level)
            } else {
                stays_under(level)
            },
        ),
{
    let ghost wanted = if rising {
        reaches_level(level)
    } else {
        stays_under(level)
    };
    let mut i: usize = 0;
    while i < values.len()
        invariant
            i <= values.len(),
            wanted == (if rising {
                reaches_level(level)
            } else {
                stays_under(level)
            }),
            forall|j: int| 0 <= j < i ==> !wanted(#[trigger] values@[j]),
        decreases values.len() - i,
    {
        let hit = if rising {
            values[i].ge(level)
        } else {
            values[i].le(level)
        };
        if hit {
            proof {
                lemma_first_index_is(values@, wanted, i);
            }
            return Some(i);
        }
        i += 1;
    }
    proof {
        lemma_first_index_none(values@, wanted);
    }
    None
}

/// The parameter at which the curve first reaches `threshold`: grid and
/// curve are read side by side as far as the shorter of them goes.
pub open spec fn crossing(lambda_grid: Seq<Binary64>, values: Seq<Binary64>, threshold: Binary64)
    -> Option<Binary64> {
    let side_by_side = if values.len() <= lambda_grid.len() {
        values
    } else {
        values.take(lambda_grid.len() as int)
    };
    match first_index_where(side_by_side, reaches_level(threshold)) {
        Some(i) => Some(lambda_grid[i as int]),
        None => None,
    }
}

/// The parameter at which the curve first reaches `threshold`.
pub fn first_crossing(lambda_grid: &Vec<Binary64>, values: &Vec<Binary64>, threshold: Binary64)
    -> (r: Option<Binary64>)
    ensures
        r == crossing(lambda_grid@, values@, threshold),
{
    let n = if values.len() <= lambda_grid.len() {
        values.len()
    } else {
        lambda_grid.len()
    };
    let ghost side_by_side = if values.len() <= lambda_grid.len() {
        values@
    } else {
        values@.take(lambda_grid.len() as int)
    };
    let mut i: usize = 0;
    while i < n
        invariant
            i <= n,
            n <= values.len(),
            n <= lambda_grid.len(),
            side_by_side.len() == n,
            side_by_side == (if values.len() <= lambda_grid.len() {
                values@
            } else {
                values@.take(lambda_grid.len() as int)
            }),
            forall|j: int| 0 <= j < n ==> side_by_side[j] == values@[j],
            forall|j: int| 0 <= j < i ==> !(reaches_level(threshold))(#[trigger] side_by_side[j]),
        decreases n - i,
    {
        if values[i].ge(threshold) {
            proof {
                assert((reaches_level(threshold))(side_by_side[i as int]));
                lemma_first_index_is(side_by_side, reaches_level(threshold), i);
            }
            return Some(lambda_grid[i]);
        }
        i += 1;
    }
    proof {
        lemma_first_index_none(side_by_side, reaches_level(threshold));
    }
    None
}

/// Where the expansion ratio crosses its levels.
#[derive(Clone, Copy, Debug)]
pub struct RltPhaseBoundary {
    /// The parameter at which the ratio first reaches 0.5.
    pub lambda_star: Option<Binary64>,
    /// The parameter at which the ratio first reaches 0.1.
    pub lambda_0_1: Option<Binary64>,
    /// The parameter at which the ratio first reaches 0.9.
    pub lambda_0_9: Option<Binary64>,
    /// The distance between the two latter, where both exist.
    pub transition_width: Option<Binary64>,
}

/// The phase boundary of an expansion curve.
pub open spec fn phase_boundary(lambda_grid: Seq<Binary64>, expansion_ratio: Seq<Binary64>)
    -> RltPhaseBoundary {
    let low = crossing(lambda_grid, expansion_ratio, number(LOW_LEVEL_BITS));
    let high = crossing(lambda_grid, expansion_ratio, number(HIGH_LEVEL_BITS));
    RltPhaseBoundary {
        lambda_star: crossing(lambda_grid, expansion_ratio, number(HALF_LEVEL_BITS)),
        lambda_0_1: low,
        lambda_0_9: high,
        transition_width: match (low, high) {
            (Some(lo), Some(hi)) => Some(hi.minus(lo)),
            _ => None,
        },
    }
}

/// Reads the phase boundary off an expansion curve. Grid and curve must
/// have the same length.
pub fn analyze_rlt_phase_boundary(lambda_grid: &Vec<Binary64>, expansion_ratio: &Vec<Binary64>)
    -> (r: Result<RltPhaseBoundary, AddError>)
    ensures
        lambda_grid.len() == expansion_ratio.len() ==> r == Ok::<RltPhaseBoundary, AddError>(
            phase_boundary(lambda_grid@, expansion_ratio@),
        ),
        lambda_grid.len() != expansion_ratio.len() ==> (r matches Err(
            AddError::LengthMismatch { context, expected, got },
        ) && context@ == "rlt phase boundary"@ && expected == lambda_grid.len() && got
            == expansion_ratio.len()),
{
    if lambda_grid.len() != expansion_ratio.len() {
        return Err(
            AddError::LengthMismatch {
                context: "rlt phase boundary",
                expected: lambda_grid.len(),
                got: expansion_ratio.len(),
            },
        );
    }
    let lambda_star = first_crossing(
        lambda_grid,
        expansion_ratio,
        Binary64::from_bits(HALF_LEVEL_BITS),
    );
    let lambda_0_1 = first_crossing(lambda_grid, expansion_ratio, Binary64::from_bits(LOW_LEVEL_BITS));
    let lambda_0_9 = first_crossing(
        lambda_grid,
        expansion_ratio,
        Binary64::from_bits(HIGH_LEVEL_BITS),
    );
    let transition_width = match (lambda_0_1, lambda_0_9) {
        (Some(lo), Some(hi)) => Some(hi.sub_rounded(lo)),
        _ => None,
    };
    Ok(RltPhaseBoundary { lambda_star, lambda_0_1, lambda_0_9, transition_width })
}

/// The index of the value that lies nearest to `target` among the first
/// `upto` values; of equally near values the first. A distance that is not
/// a number is never nearer.
pub open spec fn nearest(values: Seq<Binary64>, target: Binary64, upto: nat) -> int
    decreases upto,
{
    if upto <= 1 {
        0
    } else {
        let best = nearest(values, target, (upto - 1) as nat);
        if values[best].minus(target).magnitude().exceeds(
            values[upto - 1].minus(target).magnitude(),
        ) {
            upto - 1
        } else {
            best
        }
    }
}

/// The nearest index lies among the values looked at.
pub proof fn lemma_nearest_is_inside(values: Seq<Binary64>, target: Binary64, upto: nat)
    requires
        upto >= 1,
    ensures
        0 <= nearest(values, target, upto) < upto,
    decreases upto,
{
    if upto > 1 {
        lemma_nearest_is_inside(values, target, (upto - 1) as nat);
    }
}

/// The index of the value nearest to `target`; 0 of no values.
pub fn nearest_index(values: &Vec<Binary64>, target: Binary64) -> (r: usize)
    ensures
        r == nearest(values@, target, values@.len()),
{
    if values.len() == 0 {
        return 0;
    }
    let mut best: usize = 0;
    let mut i: usize = 1;
    while i < values.len()
        invariant
            1 <= i <= values.len(),
            best < i,
            best == nearest(values@, target, i as nat),
        decreases values.len() - i,
    {
        let held = values[best].sub_rounded(target).abs();
        let offered = values[i].sub_rounded(target).abs();
        if held.gt(offered) {
            best = i;
        }
        i += 1;
    }
    best
}

/// The grid points that stand for the bounded and for the expanding
/// regime: the first escape rate that is at most 0.05, else the one nearest
/// to 0; and the first that is at least 0.95, else the one nearest to 1.
pub fn find_representative_regime_indices(escape_rate: &Vec<Binary64>) -> (r: (usize, usize))
    ensures
        r.0 == (match first_index_where(
            escape_rate@,
            stays_under(number(RLT_BOUNDED_THRESHOLD_BITS)),
        ) {
            Some(i) => i as int,
            None => nearest(escape_rate@, number(ZERO_BITS), escape_rate@.len()),
        }),
        r.1 == (match first_index_where(
            escape_rate@,
            reaches_level(number(RLT_EXPANDING_THRESHOLD_BITS)),
        ) {
            Some(i) => i as int,
            None => nearest(escape_rate@, number(ONE_BITS), escape_rate@.len()),
        }),
{
    let bounded_idx = match first_index_at(
        escape_rate,
        Binary64::from_bits(RLT_BOUNDED_THRESHOLD_BITS),
        false,
    ) {
        Some(i) => i,
        None => nearest_index(escape_rate, Binary64::zero()),
    };
    let expanding_idx = match first_index_at(
        escape_rate,
        Binary64::from_bits(RLT_EXPANDING_THRESHOLD_BITS),
        true,
    ) {
        Some(i) => i,
        None => nearest_index(escape_rate, Binary64::one()),
    };
    (bounded_idx, expanding_idx)
}

/// The differences of two curves, the second minus the first, as far as
/// the shorter of them goes.
pub open spec fn differences(baseline: Seq<Binary64>, perturbed: Seq<Binary64>) -> Seq<Binary64> {
    Seq::new(
        if baseline.len() <= perturbed.len() {
            baseline.len()
        } else {
            perturbed.len()
        },
        |i: int| perturbed[i].minus(baseline[i]),
    )
}

/// Each number squared.
pub open spec fn squared(xs: Seq<Binary64>) -> Seq<Binary64> {
    Seq::new(xs.len(), |i: int| xs[i].times(xs[i]))
}

/// The magnitude of each number.
pub open spec fn magnitudes(xs: Seq<Binary64>) -> Seq<Binary64> {
    Seq::new(xs.len(), |i: int| xs[i].magnitude())
}

/// The root of the summed squares of the differences of two curves.
pub fn curve_l2_diff(baseline: &Vec<Binary64>, perturbed: &Vec<Binary64>) -> (r: Binary64)
    ensures
        r == running_sum(squared(differences(baseline@, perturbed@))).root(),
{
    let n = if baseline.len() <= perturbed.len() {
        baseline.len()
    } else {
        perturbed.len()
    };
    let ghost all = squared(differences(baseline@, perturbed@));
    let mut acc = Binary64::zero();
    let mut i: usize = 0;
    while i < n
        invariant
            i <= n,
            n <= baseline.len(),
            n <= perturbed.len(),
            all == squared(differences(baseline@, perturbed@)),
            all.len() == n,
            acc == running_sum(all.take(i as int)),
        decreases n - i,
    {
        proof {
            assert(all.take(i + 1).drop_last() =~= all.take(i as int));
        }
        let delta = perturbed[i].sub_rounded(baseline[i]);
        acc = acc.add_rounded(delta.mul_rounded(delta));
        i += 1;
    }
    proof {
        assert(all.take(n as int) =~= all);
    }
    acc.sqrt_rounded()
}

/// The largest magnitude among the differences of two curves; 0 of none.
pub fn curve_max_abs_diff(baseline: &Vec<Binary64>, perturbed: &Vec<Binary64>) -> (r: Binary64)
    ensures
        r == peak(magnitudes(differences(baseline@, perturbed@))),
{
    let n = if baseline.len() <= perturbed.len() {
        baseline.len()
    } else {
        perturbed.len()
    };
    let ghost all = magnitudes(differences(baseline@, perturbed@));
    let mut best = Binary64::zero();
    let mut i: usize = 0;
    while i < n
        invariant
            i <= n,
            n <= baseline.len(),
            n <= perturbed.len(),
            all == magnitudes(differences(baseline@, perturbed@)),
            all.len() == n,
            best == peak(all.take(i as int)),
        decreases n - i,
    {
        proof {
            assert(all.take(i + 1).drop_last() =~= all.take(i as int));
        }
        let offered = perturbed[i].sub_rounded(baseline[i]).abs();
        if best.is_nan() || offered.gt(best) {
            best = offered;
        }
        i += 1;
    }
    proof {
        assert(all.take(n as int) =~= all);
    }
    best
}

/// Which distance between two curves a row holds.
#[derive(Clone, Copy, Debug, PartialEq, Eq, Structural)]
pub enum CurveMetric {
    L2Diff,
    MaxAbsDiff,
}

impl CurveMetric {
    pub open spec fn name_text(self) -> Seq<char> {
        match self {
            CurveMetric::L2Diff => "l2_diff"@,
            CurveMetric::MaxAbsDiff => "max_abs_diff"@,
        }
    }

    pub fn metric_name(self) -> (r: &'static str)
        ensures
            r@ == self.name_text(),
    {
        match self {
            CurveMetric::L2Diff => "l2_diff",
            CurveMetric::MaxAbsDiff => "max_abs_diff",
        }
    }
}

/// How far the perturbed curve of a subsystem lies from its baseline.
#[derive(Clone, Copy, Debug)]
pub struct RobustnessMetric {
    pub steps_per_run: usize,
    pub metric: CurveMetric,
    pub value: Binary64,
}

/// The two distances between a baseline and a perturbed curve.
pub fn curve_robustness_metrics(
    steps_per_run: usize,
    baseline: &Vec<Binary64>,
    perturbed: &Vec<Binary64>,
) -> (r: Vec<RobustnessMetric>)
    ensures
        r@.len() == 2,
        r@[0].steps_per_run == steps_per_run && r@[0].metric == CurveMetric::L2Diff && r@[0].value
            == running_sum(squared(differences(baseline@, perturbed@))).root(),
        r@[1].steps_per_run == steps_per_run && r@[1].metric == CurveMetric::MaxAbsDiff
            && r@[1].value == peak(magnitudes(differences(baseline@, perturbed@))),
{
    let mut out: Vec<RobustnessMetric> = Vec::new();
    out.push(
        RobustnessMetric {
            steps_per_run,
            metric: CurveMetric::L2Diff,
            value: curve_l2_diff(baseline, perturbed),
        },
    );
    out.push(
        RobustnessMetric {
            steps_per_run,
            metric: CurveMetric::MaxAbsDiff,
            value: curve_max_abs_diff(baseline, perturbed),
        },
    );
    out
}

} // verus!
