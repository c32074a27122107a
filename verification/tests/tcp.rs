use dsfb::binary64::Binary64;
use dsfb::tcp::{
    column_mean, mean, occupancy_grid, occupancy_topology, radius_statistics, run_statistics,
    summarize_runs, RadiusStatistics, RunStatistics, Statistic, TcpPoint,
};
use std::collections::{HashSet, VecDeque};

fn k(x: f64) -> Binary64 {
    Binary64::from_bits(x.to_bits())
}

fn cloud(points: &[(f64, f64)]) -> Vec<TcpPoint> {
    points.iter().enumerate().map(|(t, p)| TcpPoint { t, x: k(p.0), y: k(p.1) }).collect()
}

fn scatter(seed: u64, len: usize) -> Vec<(f64, f64)> {
    let mut state = seed.wrapping_mul(0x9E37_79B9_7F4A_7C15).wrapping_add(3);
    let mut out = Vec::with_capacity(len);
    for _ in 0..len {
        state = state.wrapping_mul(6364136223846793005).wrapping_add(1442695040888963407);
        let x = ((state >> 11) as f64) / ((1u64 << 53) as f64) * 2.0 - 1.0;
        state = state.wrapping_mul(6364136223846793005).wrapping_add(1442695040888963407);
        let y = ((state >> 11) as f64) / ((1u64 << 53) as f64) * 2.0 - 1.0;
        out.push((x, y));
    }
    out
}

fn ring(count: usize) -> Vec<(f64, f64)> {
    (0..count)
        .map(|i| {
            let angle = i as f64 * std::f64::consts::TAU / count as f64;
            (angle.cos(), angle.sin())
        })
        .collect()
}

fn reference_neighbors(row: usize, col: usize, rows: usize, cols: usize) -> Vec<(usize, usize)> {
    let mut out = Vec::with_capacity(4);
    if row > 0 {
        out.push((row - 1, col));
    }
    if row + 1 < rows {
        out.push((row + 1, col));
    }
    if col > 0 {
        out.push((row, col - 1));
    }
    if col + 1 < cols {
        out.push((row, col + 1));
    }
    out
}

fn reference_components(grid: &[Vec<bool>]) -> usize {
    let rows = grid.len();
    let cols = grid[0].len();
    let mut seen = HashSet::new();
    let mut components = 0_usize;
    for row in 0..rows {
        for col in 0..cols {
            if !grid[row][col] || seen.contains(&(row, col)) {
                continue;
            }
            components += 1;
            let mut queue = VecDeque::from([(row, col)]);
            seen.insert((row, col));
            while let Some((r, c)) = queue.pop_front() {
                for (nr, nc) in reference_neighbors(r, c, rows, cols) {
                    if grid[nr][nc] && seen.insert((nr, nc)) {
                        queue.push_back((nr, nc));
                    }
                }
            }
        }
    }
    components
}

fn reference_holes(grid: &[Vec<bool>]) -> usize {
    let rows = grid.len();
    let cols = grid[0].len();
    let mut seen = HashSet::new();
    let mut holes = 0_usize;
    for row in 0..rows {
        for col in 0..cols {
            if grid[row][col] || seen.contains(&(row, col)) {
                continue;
            }
            let mut queue = VecDeque::from([(row, col)]);
            let mut touches_boundary = false;
            seen.insert((row, col));
            while let Some((r, c)) = queue.pop_front() {
                if r == 0 || c == 0 || r + 1 == rows || c + 1 == cols {
                    touches_boundary = true;
                }
                for (nr, nc) in reference_neighbors(r, c, rows, cols) {
                    if !grid[nr][nc] && seen.insert((nr, nc)) {
                        queue.push_back((nr, nc));
                    }
                }
            }
            if !touches_boundary {
                holes += 1;
            }
        }
    }
    holes
}

fn reference_grid(points: &[(f64, f64)], grid_size: usize) -> Vec<Vec<bool>> {
    let min_x = points.iter().map(|p| p.0).fold(f64::INFINITY, f64::min);
    let max_x = points.iter().map(|p| p.0).fold(f64::NEG_INFINITY, f64::max);
    let min_y = points.iter().map(|p| p.1).fold(f64::INFINITY, f64::min);
    let max_y = points.iter().map(|p| p.1).fold(f64::NEG_INFINITY, f64::max);
    let span_x = (max_x - min_x).max(1e-6);
    let span_y = (max_y - min_y).max(1e-6);
    let mut grid = vec![vec![false; grid_size]; grid_size];
    for point in points {
        let x_norm = ((point.0 - min_x) / span_x).clamp(0.0, 1.0);
        let y_norm = ((point.1 - min_y) / span_y).clamp(0.0, 1.0);
        let i = ((x_norm * (grid_size as f64 - 1.0)).round() as usize).min(grid_size - 1);
        let j = ((y_norm * (grid_size as f64 - 1.0)).round() as usize).min(grid_size - 1);
        grid[j][i] = true;
    }
    grid
}

fn reference_topology(points: &[(f64, f64)], grid_size: usize) -> (usize, usize) {
    let grid = reference_grid(points, grid_size);
    (reference_components(&grid), reference_holes(&grid))
}

fn reference_mean(values: &[f64]) -> f64 {
    if values.is_empty() {
        0.0
    } else {
        let mut total = 0.0_f64;
        for v in values {
            total += *v;
        }
        total / values.len() as f64
    }
}

fn reference_radius(points: &[(f64, f64)]) -> (f64, f64, f64) {
    let radii: Vec<f64> = points.iter().map(|p| (p.0 * p.0 + p.1 * p.1).sqrt()).collect();
    let mut total = 0.0_f64;
    for r in &radii {
        total += *r;
    }
    let radius_mean = total / radii.len() as f64;
    let radius_max = radii.iter().copied().fold(0.0_f64, f64::max);
    let mut spread = 0.0_f64;
    for r in &radii {
        let delta = r - radius_mean;
        spread += delta * delta;
    }
    (radius_mean, radius_max, spread / radii.len() as f64)
}

#[test]
fn a_single_point_fills_one_corner_cell() {
    let points = cloud(&[(0.3, -0.2)]);
    let grid = occupancy_grid(&points, 4);
    assert_eq!(grid.len(), 4);
    for (j, row) in grid.iter().enumerate() {
        assert_eq!(row.len(), 4);
        for (i, cell) in row.iter().enumerate() {
            assert_eq!(*cell, i == 0 && j == 0);
        }
    }
    assert_eq!(occupancy_topology(&points, 4), (1, 0));
}

#[test]
fn no_point_leaves_the_grid_empty() {
    let grid = occupancy_grid(&Vec::new(), 3);
    assert_eq!(grid, vec![vec![false; 3]; 3]);
    assert_eq!(occupancy_topology(&Vec::new(), 3), (0, 0));
}

#[test]
fn opposite_corners_are_two_regions() {
    let points = cloud(&[(0.0, 0.0), (1.0, 1.0)]);
    let grid = occupancy_grid(&points, 5);
    assert!(grid[0][0]);
    assert!(grid[4][4]);
    assert_eq!(grid.iter().flatten().filter(|c| **c).count(), 2);
    assert_eq!(occupancy_topology(&points, 5), (2, 0));
}

#[test]
fn the_second_coordinate_picks_the_row() {
    let points = cloud(&[(0.0, 0.0), (1.0, 0.0), (0.0, 2.0), (0.5, 1.0)]);
    let grid = occupancy_grid(&points, 3);
    assert_eq!(
        grid,
        vec![vec![true, false, true], vec![false, true, false], vec![true, false, false]]
    );
    assert_eq!(occupancy_topology(&points, 3), (4, 0));
}

#[test]
fn a_closed_square_of_points_has_one_hole() {
    let mut outline = Vec::new();
    for i in 0..5 {
        let v = i as f64;
        outline.push((v, 0.0));
        outline.push((v, 4.0));
        outline.push((0.0, v));
        outline.push((4.0, v));
    }
    let points = cloud(&outline);
    assert_eq!(occupancy_topology(&points, 5), (1, 1));
    assert_eq!(occupancy_topology(&points, 5), reference_topology(&outline, 5));
}

#[test]
fn a_ring_on_the_usual_grid_encloses_one_hole() {
    let outline = ring(400);
    let points = cloud(&outline);
    let expected = reference_topology(&outline, 18);
    assert_eq!(occupancy_topology(&points, 18), expected);
    assert_eq!(expected, (1, 1));
}

#[test]
fn occupancy_agrees_with_hardware_arithmetic() {
    for seed in 0..120u64 {
        let len = (seed % 60) as usize;
        let points = scatter(seed, len);
        for grid_size in [1usize, 2, 7, 18] {
            assert_eq!(
                occupancy_grid(&cloud(&points), grid_size),
                reference_grid(&points, grid_size)
            );
            assert_eq!(
                occupancy_topology(&cloud(&points), grid_size),
                reference_topology(&points, grid_size)
            );
        }
    }
}

#[test]
fn occupancy_of_a_degenerate_cloud_uses_the_least_span() {
    let points = [(0.5, 0.5), (0.5 + 4e-7, 0.5), (0.5, 0.5 + 1e-6)];
    assert_eq!(occupancy_grid(&cloud(&points), 6), reference_grid(&points, 6));
    assert_eq!(occupancy_topology(&cloud(&points), 6), reference_topology(&points, 6));
}

#[test]
fn occupancy_puts_points_that_are_no_number_in_the_first_cell() {
    let points = [(f64::NAN, 0.0), (1.0, 1.0), (0.0, f64::NAN)];
    assert_eq!(occupancy_grid(&cloud(&points), 4), reference_grid(&points, 4));
}

#[test]
fn mean_of_nothing_is_zero() {
    assert_eq!(mean(&Vec::new()).to_bits(), 0.0_f64.to_bits());
    assert_eq!(mean(&vec![k(1.0), k(2.0), k(6.0)]).to_bits(), 3.0_f64.to_bits());
}

#[test]
fn mean_agrees_with_hardware_arithmetic() {
    for seed in 0..100u64 {
        let values: Vec<f64> = scatter(seed, (seed % 9) as usize).into_iter().map(|p| p.0).collect();
        let ours: Vec<Binary64> = values.iter().map(|v| k(*v)).collect();
        assert_eq!(mean(&ours).to_bits(), reference_mean(&values).to_bits());
    }
}

#[test]
fn radius_statistics_of_a_three_four_pair() {
    let stats = radius_statistics(&cloud(&[(3.0, 4.0), (0.0, 0.0)]));
    assert_eq!(stats.mean.to_bits(), 2.5_f64.to_bits());
    assert_eq!(stats.max.to_bits(), 5.0_f64.to_bits());
    assert_eq!(stats.variance.to_bits(), 6.25_f64.to_bits());
}

#[test]
fn radius_statistics_agree_with_hardware_arithmetic() {
    for seed in 0..100u64 {
        let points = scatter(seed + 400, 1 + (seed % 50) as usize);
        let stats = radius_statistics(&cloud(&points));
        let expected = reference_radius(&points);
        assert_eq!(stats.mean.to_bits(), expected.0.to_bits());
        assert_eq!(stats.max.to_bits(), expected.1.to_bits());
        assert_eq!(stats.variance.to_bits(), expected.2.to_bits());
    }
}

#[test]
fn run_statistics_add_counts_and_variance() {
    for seed in 0..40u64 {
        let points = scatter(seed + 9000, 96);
        let stats = run_statistics(&cloud(&points));
        let (components, holes) = reference_topology(&points, 18);
        let radius = reference_radius(&points);
        assert_eq!(stats.components, components);
        assert_eq!(stats.holes, holes);
        assert_eq!(stats.radius.variance.to_bits(), radius.2.to_bits());
        assert_eq!(
            stats.l_tcp.to_bits(),
            (components as f64 + holes as f64 + radius.2).to_bits()
        );
    }
}

#[test]
fn summary_rounds_the_mean_counts() {
    let run = |components: usize, holes: usize, scale: f64| RunStatistics {
        components,
        holes,
        l_tcp: k(scale),
        radius: RadiusStatistics { mean: k(scale / 2.0), max: k(scale * 2.0), variance: k(0.25) },
    };
    let runs = vec![run(1, 0, 1.0), run(2, 1, 2.0), run(2, 0, 3.0), run(4, 1, 4.0), run(3, 1, 5.0)];
    let summary = summarize_runs(&runs);
    assert_eq!(summary.betti0, 2);
    assert_eq!(summary.betti1, 1);
    assert_eq!(summary.l_tcp.to_bits(), 3.0_f64.to_bits());
    assert_eq!(summary.avg_radius.to_bits(), 1.5_f64.to_bits());
    assert_eq!(summary.max_radius.to_bits(), 6.0_f64.to_bits());
    assert_eq!(summary.variance_radius.to_bits(), 0.25_f64.to_bits());
    assert_eq!(column_mean(&runs, Statistic::Components).to_bits(), 2.4_f64.to_bits());
    assert_eq!(column_mean(&runs, Statistic::Holes).to_bits(), 0.6_f64.to_bits());
}

#[test]
fn summary_of_no_run_is_zero() {
    let summary = summarize_runs(&Vec::new());
    assert_eq!(summary.betti0, 0);
    assert_eq!(summary.betti1, 0);
    assert_eq!(summary.l_tcp.to_bits(), 0.0_f64.to_bits());
}
