//! Point clouds in the plane: the grid cells they fall in, the regions and
//! holes of the occupied cells, and the statistics of their radii.
use vstd::prelude::*;
use crate::bench::held_to_unit;
use crate::bench::larger;
use crate::binary64::Binary64;
use crate::binary64::count_number;
use crate::binary64::number;
use crate::binary64::INFINITY_BITS;
use crate::binary64::ONE_BITS;
use crate::binary64::ZERO_BITS;
use crate::grid::cells;
use crate::grid::count_false_holes;
use crate::grid::count_true_components;
use crate::grid::is_rectangular;
use crate::grid::kin_links;
use crate::grid::on_rim;
use crate::grid::valued;
use crate::monte_carlo::smaller;
use crate::regions::count_enclosed;
use crate::regions::count_leaders;
use crate::sim::peak;
use crate::trust::running_sum;
use crate::trust::sum;

verus! {

/// Pattern of negative infinity.
pub const NEG_INFINITY_BITS: u64 = 0xFFF0_0000_0000_0000;

/// Pattern of `1e-6`, the least span that a cloud is stretched over.
pub const LEAST_SPAN_BITS: u64 = 0x3EB0_C6F7_A0B5_ED8D;

/// Cells along each side of the occupancy grid of a run.
pub const OCCUPANCY_GRID_SIZE: usize = 18;

/// A point of a cloud.
#[derive(Clone, Copy, Debug)]
pub struct TcpPoint {
    pub t: usize,
    pub x: Binary64,
    pub y: Binary64,
}

/// The smallest of `start` and the numbers.
pub open spec fn least_from(start: Binary64, xs: Seq<Binary64>) -> Binary64
    decreases xs.len(),
{
    if xs.len() == 0 {
        start
    } else {
        smaller(least_from(start, xs.drop_last()), xs.last())
    }
}

/// The largest of `start` and the numbers.
pub open spec fn greatest_from(start: Binary64, xs: Seq<Binary64>) -> Binary64
    decreases xs.len(),
{
    if xs.len() == 0 {
        start
    } else {
        larger(greatest_from(start, xs.drop_last()), xs.last())
    }
}

/// The first or the second coordinate of each point.
pub open spec fn coordinates(points: Seq<TcpPoint>, second: bool) -> Seq<Binary64> {
    Seq::new(
        points.len(),
        |i: int|
            if second {
                points[i].y
            } else {
                points[i].x
            },
    )
}

/// Where a cloud begins along one coordinate.
pub open spec fn low_end(points: Seq<TcpPoint>, second: bool) -> Binary64 {
    least_from(number(INFINITY_BITS), coordinates(points, second))
}

/// What a cloud spans along one coordinate, at least `1e-6`.
pub open spec fn span(points: Seq<TcpPoint>, second: bool) -> Binary64 {
    larger(
        greatest_from(number(NEG_INFINITY_BITS), coordinates(points, second)).minus(
            low_end(points, second),
        ),
        number(LEAST_SPAN_BITS),
    )
}

/// The cell that a coordinate falls in among `grid_size` cells: its place
/// within the span of the cloud, from 0 to 1, times the last cell index,
/// rounded.
pub open spec fn cell_of(v: Binary64, low: Binary64, width: Binary64, grid_size: usize) -> usize {
    let raw = held_to_unit(v.minus(low).over(width)).times(
        count_number(grid_size as nat).minus(number(ONE_BITS)),
    ).rounded_usize();
    if raw > grid_size - 1 {
        (grid_size - 1) as usize
    } else {
        raw
    }
}

/// Whether a point of the cloud falls in the cell of the given row and
/// column.
pub open spec fn occupied(points: Seq<TcpPoint>, grid_size: usize, row: int, col: int) -> bool {
    exists|p: int|
        0 <= p < points.len() && #[trigger] cell_of(
            points[p].x,
            low_end(points, false),
            span(points, false),
            grid_size,
        ) == col && cell_of(points[p].y, low_end(points, true), span(points, true), grid_size)
            == row
}

/// The occupancy grid of a cloud.
pub open spec fn occupancy(points: Seq<TcpPoint>, grid_size: usize) -> Seq<Seq<bool>> {
    Seq::new(
        grid_size as nat,
        |row: int| Seq::new(grid_size as nat, |col: int| occupied(points, grid_size, row, col)),
    )
}

fn low_and_span(points: &Vec<TcpPoint>, second: bool) -> (r: (Binary64, Binary64))
    ensures
        r.0 == low_end(points@, second),
        r.1 == span(points@, second),
{
    let ghost all = coordinates(points@, second);
    let mut low = Binary64::from_bits(INFINITY_BITS);
    let mut high = Binary64::from_bits(NEG_INFINITY_BITS);
    let mut i: usize = 0;
    while i < points.len()
        invariant
            i <= points.len(),
            all == coordinates(points@, second),
            low == least_from(number(INFINITY_BITS), all.take(i as int)),
            high == greatest_from(number(NEG_INFINITY_BITS), all.take(i as int)),
        decreases points.len() - i,
    {
        proof {
            assert(all.take(i + 1).drop_last() =~= all.take(i as int));
        }
        let v = if second {
            points[i].y
        } else {
            points[i].x
        };
        if low.is_nan() || v.lt(low) {
            low = v;
        }
        if high.is_nan() || v.gt(high) {
            high = v;
        }
        i += 1;
    }
    proof {
        assert(all.take(points.len() as int) =~= all);
    }
    let raw = high.sub_rounded(low);
    let least = Binary64::from_bits(LEAST_SPAN_BITS);
    let width = if raw.is_nan() || least.gt(raw) {
        least
    } else {
        raw
    };
    (low, width)
}

fn cell(v: Binary64, low: Binary64, width: Binary64, grid_size: usize) -> (r: usize)
    requires
        grid_size > 0,
    ensures
        r == cell_of(v, low, width, grid_size),
        r < grid_size,
{
    let ratio = v.sub_rounded(low).div_rounded(width);
    let held = if ratio.lt(Binary64::zero()) {
        Binary64::zero()
    } else if ratio.gt(Binary64::one()) {
        Binary64::one()
    } else {
        ratio
    };
    let raw = held.mul_rounded(
        Binary64::from_count(grid_size).sub_rounded(Binary64::one()),
    ).round_to_usize();
    if raw > grid_size - 1 {
        grid_size - 1
    } else {
        raw
    }
}

/// The occupancy grid of a cloud: `grid_size` rows of `grid_size` cells, a
/// cell being set where a point falls in it.
pub fn occupancy_grid(points: &Vec<TcpPoint>, grid_size: usize) -> (r: Vec<Vec<bool>>)
    requires
        grid_size > 0,
    ensures
        cells(r) == occupancy(points@, grid_size),
        r.len() == grid_size,
        is_rectangular(cells(r), grid_size as int),
{
    let (min_x, span_x) = low_and_span(points, false);
    let (min_y, span_y) = low_and_span(points, true);
    let mut grid: Vec<Vec<bool>> = Vec::new();
    let mut row: usize = 0;
    while row < grid_size
        invariant
            row <= grid_size,
            grid@.len() == row,
            forall|j: int| 0 <= j < row ==> (#[trigger] grid@[j])@.len() == grid_size,
            forall|j: int, i: int| 0 <= j < row && 0 <= i < grid_size ==> !(#[trigger] grid@[j]@[i]),
        decreases grid_size - row,
    {
        let mut line: Vec<bool> = Vec::new();
        let mut col: usize = 0;
        while col < grid_size
            invariant
                col <= grid_size,
                line@.len() == col,
                forall|i: int| 0 <= i < col ==> !line@[i],
            decreases grid_size - col,
        {
            line.push(false);
            col += 1;
        }
        grid.push(line);
        row += 1;
    }
    let mut p: usize = 0;
    while p < points.len()
        invariant
            p <= points.len(),
            grid_size > 0,
            min_x == low_end(points@, false),
            span_x == span(points@, false),
            min_y == low_end(points@, true),
            span_y == span(points@, true),
            grid@.len() == grid_size,
            forall|j: int| 0 <= j < grid_size ==> (#[trigger] grid@[j])@.len() == grid_size,
            forall|j: int, i: int|
                0 <= j < grid_size && 0 <= i < grid_size ==> (#[trigger] grid@[j]@[i] <==> exists|
                    q: int,
                |
                    0 <= q < p && #[trigger] cell_of(points@[q].x, min_x, span_x, grid_size) == i
                        && cell_of(points@[q].y, min_y, span_y, grid_size) == j),
        decreases points.len() - p,
    {
        let i = cell(points[p].x, min_x, span_x, grid_size);
        let j = cell(points[p].y, min_y, span_y, grid_size);
        let ghost before = grid@;
        let line = &mut grid[j];
        line.set(i, true);
        proof {
            assert forall|b: int, a: int| 0 <= b < grid_size && 0 <= a < grid_size implies (
            #[trigger] grid@[b]@[a] <==> exists|q: int|
                0 <= q < p + 1 && #[trigger] cell_of(points@[q].x, min_x, span_x, grid_size) == a
                    && cell_of(points@[q].y, min_y, span_y, grid_size) == b) by {
                if b == j && a == i {
                    assert(cell_of(points@[p as int].x, min_x, span_x, grid_size) == a);
                } else {
                    assert(grid@[b]@[a] == before[b]@[a]);
                    if before[b]@[a] {
                        let q = choose|q: int|
                            0 <= q < p && #[trigger] cell_of(
                                points@[q].x,
                                min_x,
                                span_x,
                                grid_size,
                            ) == a && cell_of(points@[q].y, min_y, span_y, grid_size) == b;
                        assert(cell_of(points@[q].x, min_x, span_x, grid_size) == a);
                    }
                }
            }
        }
        p += 1;
    }
    proof {
        assert forall|r: int| 0 <= r < cells(grid).len() implies (#[trigger] cells(grid)[r]).len()
            == grid_size by {
            assert(cells(grid)[r] == grid@[r]@);
        }
        assert forall|j: int| 0 <= j < grid_size implies #[trigger] cells(grid)[j] =~= occupancy(
            points@,
            grid_size,
        )[j] by {
            assert(cells(grid)[j] == grid@[j]@);
            assert forall|i: int| 0 <= i < grid_size implies grid@[j]@[i] == occupied(
                points@,
                grid_size,
                j,
                i,
            ) by {
                let _ = grid@[j]@[i];
            }
        }
        assert(cells(grid) =~= occupancy(points@, grid_size));
    }
    grid
}

/// The number of regions of occupied cells, and the number of holes among
/// them, in the occupancy grid of a cloud.
pub fn occupancy_topology(points: &Vec<TcpPoint>, grid_size: usize) -> (r: (usize, usize))
    requires
        grid_size > 0,
        grid_size * grid_size <= usize::MAX,
    ensures
        r.0 == count_leaders(
            kin_links(occupancy(points@, grid_size), grid_size as int, true),
            valued(occupancy(points@, grid_size), grid_size as int, true),
            (grid_size * grid_size) as nat,
        ),
        r.1 == count_enclosed(
            kin_links(occupancy(points@, grid_size), grid_size as int, false),
            valued(occupancy(points@, grid_size), grid_size as int, false),
            on_rim(occupancy(points@, grid_size), grid_size as int),
            (grid_size * grid_size) as nat,
        ),
{
    let grid = occupancy_grid(points, grid_size);
    proof {
        assert(cells(grid)[0] == grid@[0]@);
    }
    let components = count_true_components(&grid);
    let holes = count_false_holes(&grid);
    (components, holes)
}

/// The mean of the numbers; 0 of none.
pub open spec fn mean_or_zero(values: Seq<Binary64>) -> Binary64 {
    if values.len() == 0 {
        number(ZERO_BITS)
    } else {
        running_sum(values).over(count_number(values.len()))
    }
}

pub fn mean(values: &Vec<Binary64>) -> (r: Binary64)
    ensures
        r == mean_or_zero(values@),
{
    if values.len() == 0 {
        Binary64::zero()
    } else {
        sum(values).div_rounded(Binary64::from_count(values.len()))
    }
}

/// The distance of each point from the origin.
pub open spec fn radii(points: Seq<TcpPoint>) -> Seq<Binary64> {
    Seq::new(
        points.len(),
        |i: int| points[i].x.times(points[i].x).plus(points[i].y.times(points[i].y)).root(),
    )
}

/// The squared distance of each number from `center`.
pub open spec fn squared_deviations(values: Seq<Binary64>, center: Binary64) -> Seq<Binary64> {
    Seq::new(values.len(), |i: int| values[i].minus(center).times(values[i].minus(center)))
}

/// Mean, largest and variance of the radii of a cloud.
#[derive(Clone, Copy, Debug)]
pub struct RadiusStatistics {
    pub mean: Binary64,
    pub max: Binary64,
    pub variance: Binary64,
}

/// The statistics of the radii of a cloud: their mean, the largest of them
/// and of 0, and the mean squared deviation from their mean.
pub open spec fn radius_statistics_of(points: Seq<TcpPoint>) -> RadiusStatistics {
    let mean = running_sum(radii(points)).over(count_number(points.len()));
    RadiusStatistics {
        mean,
        max: peak(radii(points)),
        variance: running_sum(squared_deviations(radii(points), mean)).over(
            count_number(points.len()),
        ),
    }
}

pub fn radius_statistics(points: &Vec<TcpPoint>) -> (r: RadiusStatistics)
    ensures
        r == radius_statistics_of(points@),
{
    let ghost all = radii(points@);
    let mut values: Vec<Binary64> = Vec::new();
    let mut total = Binary64::zero();
    let mut max = Binary64::zero();
    let mut i: usize = 0;
    while i < points.len()
        invariant
            i <= points.len(),
            all == radii(points@),
            values@ == all.take(i as int),
            total == running_sum(all.take(i as int)),
            max == peak(all.take(i as int)),
        decreases points.len() - i,
    {
        proof {
            assert(all.take(i + 1).drop_last() =~= all.take(i as int));
        }
        let point = points[i];
        let radius = point.x.mul_rounded(point.x).add_rounded(
            point.y.mul_rounded(point.y),
        ).sqrt_rounded();
        values.push(radius);
        assert(values@ =~= all.take(i + 1));
        total = total.add_rounded(radius);
        if max.is_nan() || radius.gt(max) {
            max = radius;
        }
        i += 1;
    }
    proof {
        assert(all.take(points.len() as int) =~= all);
    }
    let count = Binary64::from_count(points.len());
    let mean = total.div_rounded(count);
    let ghost deviations = squared_deviations(all, mean);
    let mut spread = Binary64::zero();
    let mut i: usize = 0;
    while i < values.len()
        invariant
            i <= values.len(),
            values@ == all,
            deviations == squared_deviations(all, mean),
            spread == running_sum(deviations.take(i as int)),
        decreases values.len() - i,
    {
        proof {
            assert(deviations.take(i + 1).drop_last() =~= deviations.take(i as int));
        }
        let delta = values[i].sub_rounded(mean);
        spread = spread.add_rounded(delta.mul_rounded(delta));
        i += 1;
    }
    proof {
        assert(deviations.take(values.len() as int) =~= deviations);
    }
    RadiusStatistics { mean, max, variance: spread.div_rounded(count) }
}

/// What is kept of the cloud of one run.
#[derive(Clone, Copy, Debug)]
pub struct RunStatistics {
    pub components: usize,
    pub holes: usize,
    /// Components plus holes plus the variance of the radii.
    pub l_tcp: Binary64,
    pub radius: RadiusStatistics,
}

/// The statistics of the cloud of one run, over an occupancy grid of 18 by
/// 18 cells.
pub fn run_statistics(points: &Vec<TcpPoint>) -> (r: RunStatistics)
    ensures
        r.radius == radius_statistics_of(points@),
        r.components == count_leaders(
            kin_links(occupancy(points@, OCCUPANCY_GRID_SIZE), OCCUPANCY_GRID_SIZE as int, true),
            valued(occupancy(points@, OCCUPANCY_GRID_SIZE), OCCUPANCY_GRID_SIZE as int, true),
            (OCCUPANCY_GRID_SIZE * OCCUPANCY_GRID_SIZE) as nat,
        ),
        r.holes == count_enclosed(
            kin_links(occupancy(points@, OCCUPANCY_GRID_SIZE), OCCUPANCY_GRID_SIZE as int, false),
            valued(occupancy(points@, OCCUPANCY_GRID_SIZE), OCCUPANCY_GRID_SIZE as int, false),
            on_rim(occupancy(points@, OCCUPANCY_GRID_SIZE), OCCUPANCY_GRID_SIZE as int),
            (OCCUPANCY_GRID_SIZE * OCCUPANCY_GRID_SIZE) as nat,
        ),
        r.l_tcp == count_number(r.components as nat).plus(count_number(r.holes as nat)).plus(
            r.radius.variance,
        ),
{
    let radius = radius_statistics(points);
    let (components, holes) = occupancy_topology(points, OCCUPANCY_GRID_SIZE);
    let l_tcp = Binary64::from_count(components).add_rounded(
        Binary64::from_count(holes),
    ).add_rounded(radius.variance);
    RunStatistics { components, holes, l_tcp, radius }
}

/// What is kept of the clouds of several runs: the mean of each statistic,
/// the two counts rounded to whole numbers.
#[derive(Clone, Copy, Debug)]
pub struct CloudSummary {
    pub betti0: usize,
    pub betti1: usize,
    pub l_tcp: Binary64,
    pub avg_radius: Binary64,
    pub max_radius: Binary64,
    pub variance_radius: Binary64,
}

/// One statistic of each run, as a number.
pub open spec fn column(runs: Seq<RunStatistics>, which: Statistic) -> Seq<Binary64> {
    Seq::new(runs.len(), |i: int| which.of(runs[i]))
}

/// The statistics of a run.
#[derive(Clone, Copy, Debug, PartialEq, Eq)]
pub enum Statistic {
    Components,
    Holes,
    Scale,
    MeanRadius,
    MaxRadius,
    RadiusVariance,
}

impl Statistic {
    pub open spec fn of(self, run: RunStatistics) -> Binary64 {
        match self {
            Statistic::Components => count_number(run.components as nat),
            Statistic::Holes => count_number(run.holes as nat),
            Statistic::Scale => run.l_tcp,
            Statistic::MeanRadius => run.radius.mean,
            Statistic::MaxRadius => run.radius.max,
            Statistic::RadiusVariance => run.radius.variance,
        }
    }

    /// This statistic of a run, as a number.
    pub fn read(self, run: &RunStatistics) -> (r: Binary64)
        ensures
            r == self.of(*run),
    {
        match self {
            Statistic::Components => Binary64::from_count(run.components),
            Statistic::Holes => Binary64::from_count(run.holes),
            Statistic::Scale => run.l_tcp,
            Statistic::MeanRadius => run.radius.mean,
            Statistic::MaxRadius => run.radius.max,
            Statistic::RadiusVariance => run.radius.variance,
        }
    }
}

/// The mean of one statistic over the runs; 0 of no run.
pub fn column_mean(runs: &Vec<RunStatistics>, which: Statistic) -> (r: Binary64)
    ensures
        r == mean_or_zero(column(runs@, which)),
{
    let ghost all = column(runs@, which);
    let mut values: Vec<Binary64> = Vec::new();
    let mut i: usize = 0;
    while i < runs.len()
        invariant
            i <= runs.len(),
            all == column(runs@, which),
            values@ == all.take(i as int),
        decreases runs.len() - i,
    {
        values.push(which.read(&runs[i]));
        assert(values@ =~= all.take(i + 1));
        i += 1;
    }
    proof {
        assert(all.take(runs.len() as int) =~= all);
    }
    mean(&values)
}

/// The summary of the clouds of several runs.
pub fn summarize_runs(runs: &Vec<RunStatistics>) -> (r: CloudSummary)
    ensures
        r.betti0 == mean_or_zero(column(runs@, Statistic::Components)).rounded_usize(),
        r.betti1 == mean_or_zero(column(runs@, Statistic::Holes)).rounded_usize(),
        r.l_tcp == mean_or_zero(column(runs@, Statistic::Scale)),
        r.avg_radius == mean_or_zero(column(runs@, Statistic::MeanRadius)),
        r.max_radius == mean_or_zero(column(runs@, Statistic::MaxRadius)),
        r.variance_radius == mean_or_zero(column(runs@, Statistic::RadiusVariance)),
{
    CloudSummary {
        betti0: column_mean(runs, Statistic::Components).round_to_usize(),
        betti1: column_mean(runs, Statistic::Holes).round_to_usize(),
        l_tcp: column_mean(runs, Statistic::Scale),
        avg_radius: column_mean(runs, Statistic::MeanRadius),
        max_radius: column_mean(runs, Statistic::MaxRadius),
        variance_radius: column_mean(runs, Statistic::RadiusVariance),
    }
}

} // verus!
