use dsfb::binary64::Binary64;
use dsfb::curves::{
    analyze_rlt_phase_boundary, curve_l2_diff, curve_max_abs_diff, curve_robustness_metrics,
    find_representative_regime_indices, first_crossing, first_index_at, nearest_index, CurveMetric,
};
use dsfb::sweep_config::AddError;

fn k(x: f64) -> Binary64 {
    Binary64::from_bits(x.to_bits())
}

fn ks(xs: &[f64]) -> Vec<Binary64> {
    xs.iter().map(|x| k(*x)).collect()
}

fn bits(x: Option<Binary64>) -> Option<u64> {
    x.map(|v| v.to_bits())
}

fn curve(seed: u64, len: usize) -> Vec<f64> {
    let mut state = seed.wrapping_mul(0x9E37_79B9_7F4A_7C15).wrapping_add(1);
    let mut out = Vec::with_capacity(len);
    for _ in 0..len {
        state = state.wrapping_mul(6364136223846793005).wrapping_add(1442695040888963407);
        out.push(((state >> 11) as f64) / ((1u64 << 53) as f64));
    }
    out
}

fn reference_crossing(lambda_grid: &[f64], values: &[f64], threshold: f64) -> Option<f64> {
    lambda_grid
        .iter()
        .zip(values.iter())
        .find(|(_, value)| **value >= threshold)
        .map(|(lambda, _)| *lambda)
}

fn reference_nearest(values: &[f64], target: f64) -> usize {
    values
        .iter()
        .enumerate()
        .min_by(|(_, left), (_, right)| {
            let left_distance = (*left - target).abs();
            let right_distance = (*right - target).abs();
            left_distance.partial_cmp(&right_distance).unwrap_or(std::cmp::Ordering::Equal)
        })
        .map(|(idx, _)| idx)
        .unwrap_or(0)
}

fn reference_representatives(escape_rate: &[f64]) -> (usize, usize) {
    let bounded = escape_rate
        .iter()
        .position(|&value| value <= 0.05)
        .unwrap_or_else(|| reference_nearest(escape_rate, 0.0));
    let expanding = escape_rate
        .iter()
        .position(|&value| value >= 0.95)
        .unwrap_or_else(|| reference_nearest(escape_rate, 1.0));
    (bounded, expanding)
}

fn reference_l2(baseline: &[f64], perturbed: &[f64]) -> f64 {
    let mut total = 0.0_f64;
    for (base, value) in baseline.iter().zip(perturbed.iter()) {
        let delta = value - base;
        total += delta * delta;
    }
    total.sqrt()
}

fn reference_max_abs(baseline: &[f64], perturbed: &[f64]) -> f64 {
    baseline
        .iter()
        .zip(perturbed.iter())
        .map(|(base, value)| (value - base).abs())
        .fold(0.0_f64, f64::max)
}

#[test]
fn first_crossing_returns_the_parameter_of_the_first_value_at_the_threshold() {
    let grid = ks(&[0.0, 0.25, 0.5, 0.75, 1.0]);
    let values = ks(&[0.1, 0.3, 0.5, 0.4, 0.9]);
    assert_eq!(bits(first_crossing(&grid, &values, k(0.5))), Some(0.5_f64.to_bits()));
    assert_eq!(bits(first_crossing(&grid, &values, k(0.05))), Some(0.0_f64.to_bits()));
    assert_eq!(bits(first_crossing(&grid, &values, k(0.6))), Some(1.0_f64.to_bits()));
    assert_eq!(bits(first_crossing(&grid, &values, k(0.95))), None);
}

#[test]
fn first_crossing_stops_at_the_shorter_series() {
    let grid = ks(&[0.0, 0.5]);
    let values = ks(&[0.1, 0.2, 0.9]);
    assert_eq!(bits(first_crossing(&grid, &values, k(0.8))), None);
    let grid = ks(&[0.0, 0.5, 1.0]);
    let values = ks(&[0.1, 0.9]);
    assert_eq!(bits(first_crossing(&grid, &values, k(0.8))), Some(0.5_f64.to_bits()));
    assert_eq!(bits(first_crossing(&Vec::new(), &Vec::new(), k(0.0))), None);
}

#[test]
fn first_crossing_passes_over_values_that_are_no_number() {
    let grid = ks(&[0.0, 0.5, 1.0]);
    let values = ks(&[f64::NAN, 0.2, 0.7]);
    assert_eq!(bits(first_crossing(&grid, &values, k(0.1))), Some(0.5_f64.to_bits()));
    assert_eq!(bits(first_crossing(&grid, &values, k(f64::NAN))), None);
}

#[test]
fn first_crossing_agrees_with_an_iterator_search() {
    for seed in 0..200u64 {
        let len = (seed % 13) as usize;
        let grid = curve(seed, len);
        let values = curve(seed + 1000, len + (seed % 3) as usize);
        for threshold in [0.0, 0.1, 0.5, 0.9, 0.99, 1.5] {
            let expected = reference_crossing(&grid, &values, threshold).map(f64::to_bits);
            assert_eq!(bits(first_crossing(&ks(&grid), &ks(&values), k(threshold))), expected);
        }
    }
}

#[test]
fn first_index_at_finds_rising_and_falling_levels() {
    let values = ks(&[0.5, 0.2, 0.9, 0.1]);
    assert_eq!(first_index_at(&values, k(0.8), true), Some(2));
    assert_eq!(first_index_at(&values, k(0.2), false), Some(1));
    assert_eq!(first_index_at(&values, k(0.5), true), Some(0));
    assert_eq!(first_index_at(&values, k(0.5), false), Some(0));
    assert_eq!(first_index_at(&values, k(1.0), true), None);
    assert_eq!(first_index_at(&values, k(0.05), false), None);
}

#[test]
fn phase_boundary_reads_the_three_levels() {
    let grid = ks(&[0.0, 0.2, 0.4, 0.6, 0.8, 1.0]);
    let ratio = ks(&[0.0, 0.1, 0.3, 0.5, 0.8, 0.95]);
    let boundary = analyze_rlt_phase_boundary(&grid, &ratio).unwrap();
    assert_eq!(bits(boundary.lambda_star), Some(0.6_f64.to_bits()));
    assert_eq!(bits(boundary.lambda_0_1), Some(0.2_f64.to_bits()));
    assert_eq!(bits(boundary.lambda_0_9), Some(1.0_f64.to_bits()));
    assert_eq!(bits(boundary.transition_width), Some((1.0_f64 - 0.2_f64).to_bits()));
}

#[test]
fn phase_boundary_has_no_width_without_both_ends() {
    let grid = ks(&[0.0, 0.5, 1.0]);
    let ratio = ks(&[0.0, 0.2, 0.6]);
    let boundary = analyze_rlt_phase_boundary(&grid, &ratio).unwrap();
    assert_eq!(bits(boundary.lambda_star), Some(1.0_f64.to_bits()));
    assert_eq!(bits(boundary.lambda_0_1), Some(0.5_f64.to_bits()));
    assert_eq!(bits(boundary.lambda_0_9), None);
    assert_eq!(bits(boundary.transition_width), None);

    let flat = analyze_rlt_phase_boundary(&grid, &ks(&[0.0, 0.0, 0.0])).unwrap();
    assert_eq!(bits(flat.lambda_star), None);
    assert_eq!(bits(flat.lambda_0_1), None);
    assert_eq!(bits(flat.lambda_0_9), None);
    assert_eq!(bits(flat.transition_width), None);
}

#[test]
fn phase_boundary_refuses_series_of_different_lengths() {
    let result = analyze_rlt_phase_boundary(&ks(&[0.0, 0.5, 1.0]), &ks(&[0.0, 0.2]));
    match result {
        Err(AddError::LengthMismatch { context, expected, got }) => {
            assert_eq!(context, "rlt phase boundary");
            assert_eq!(expected, 3);
            assert_eq!(got, 2);
        }
        other => panic!("unexpected result: {:?}", other.map(|b| bits(b.lambda_star))),
    }
}

#[test]
fn phase_boundary_agrees_with_an_iterator_search() {
    for seed in 0..100u64 {
        let len = 1 + (seed % 17) as usize;
        let grid = curve(seed, len);
        let mut ratio = curve(seed + 77, len);
        ratio.sort_by(|a, b| a.partial_cmp(b).unwrap());
        let boundary = analyze_rlt_phase_boundary(&ks(&grid), &ks(&ratio)).unwrap();
        let lo = reference_crossing(&grid, &ratio, 0.1);
        let hi = reference_crossing(&grid, &ratio, 0.9);
        assert_eq!(
            bits(boundary.lambda_star),
            reference_crossing(&grid, &ratio, 0.5).map(f64::to_bits)
        );
        assert_eq!(bits(boundary.lambda_0_1), lo.map(f64::to_bits));
        assert_eq!(bits(boundary.lambda_0_9), hi.map(f64::to_bits));
        let width = match (lo, hi) {
            (Some(lo), Some(hi)) => Some((hi - lo).to_bits()),
            _ => None,
        };
        assert_eq!(bits(boundary.transition_width), width);
    }
}

#[test]
fn nearest_index_takes_the_first_of_the_closest() {
    assert_eq!(nearest_index(&ks(&[0.4, 0.2, 0.6, 0.2]), k(0.0)), 1);
    assert_eq!(nearest_index(&ks(&[0.4, 0.2, 0.6, 0.8, 0.8]), k(1.0)), 3);
    assert_eq!(nearest_index(&ks(&[0.3]), k(7.0)), 0);
    assert_eq!(nearest_index(&Vec::new(), k(0.0)), 0);
}

#[test]
fn nearest_index_agrees_with_min_by() {
    for seed in 0..300u64 {
        let len = (seed % 11) as usize;
        let mut values = curve(seed, len);
        if seed % 5 == 0 && len > 2 {
            values[1] = f64::NAN;
        }
        if seed % 7 == 0 && len > 3 {
            values[3] = values[0];
        }
        for target in [0.0, 0.5, 1.0] {
            assert_eq!(nearest_index(&ks(&values), k(target)), reference_nearest(&values, target));
        }
    }
}

#[test]
fn representatives_prefer_values_beyond_the_thresholds() {
    let rates = ks(&[0.5, 0.04, 0.0, 0.97, 1.0]);
    assert_eq!(find_representative_regime_indices(&rates), (1, 3));
    let rates = ks(&[0.05, 0.95]);
    assert_eq!(find_representative_regime_indices(&rates), (0, 1));
}

#[test]
fn representatives_fall_back_to_the_nearest() {
    let rates = ks(&[0.5, 0.3, 0.7, 0.6]);
    assert_eq!(find_representative_regime_indices(&rates), (1, 2));
    assert_eq!(find_representative_regime_indices(&Vec::new()), (0, 0));
}

#[test]
fn representatives_agree_with_a_position_search() {
    for seed in 0..300u64 {
        let len = (seed % 9) as usize;
        let mut rates = curve(seed + 5000, len);
        if seed % 2 == 0 {
            for r in rates.iter_mut() {
                *r = 0.1 + 0.8 * *r;
            }
        }
        assert_eq!(
            find_representative_regime_indices(&ks(&rates)),
            reference_representatives(&rates)
        );
    }
}

#[test]
fn l2_difference_of_a_three_four_pair_is_five() {
    let baseline = ks(&[1.0, 1.0]);
    let perturbed = ks(&[4.0, 5.0]);
    assert_eq!(curve_l2_diff(&baseline, &perturbed).to_bits(), 5.0_f64.to_bits());
    assert_eq!(curve_max_abs_diff(&baseline, &perturbed).to_bits(), 4.0_f64.to_bits());
    assert_eq!(curve_l2_diff(&baseline, &baseline).to_bits(), 0.0_f64.to_bits());
    assert_eq!(curve_max_abs_diff(&baseline, &baseline).to_bits(), 0.0_f64.to_bits());
    assert_eq!(curve_l2_diff(&Vec::new(), &Vec::new()).to_bits(), 0.0_f64.to_bits());
}

#[test]
fn differences_agree_with_hardware_arithmetic() {
    for seed in 0..200u64 {
        let len = (seed % 7) as usize;
        let baseline = curve(seed, len);
        let perturbed = curve(seed + 31, len + (seed % 2) as usize);
        assert_eq!(
            curve_l2_diff(&ks(&baseline), &ks(&perturbed)).to_bits(),
            reference_l2(&baseline, &perturbed).to_bits()
        );
        assert_eq!(
            curve_max_abs_diff(&ks(&baseline), &ks(&perturbed)).to_bits(),
            reference_max_abs(&baseline, &perturbed).to_bits()
        );
    }
}

#[test]
fn robustness_metrics_name_both_distances() {
    let rows = curve_robustness_metrics(250, &ks(&[0.0, 0.0]), &ks(&[3.0, -4.0]));
    assert_eq!(rows.len(), 2);
    assert_eq!(rows[0].steps_per_run, 250);
    assert_eq!(rows[0].metric, CurveMetric::L2Diff);
    assert_eq!(rows[0].metric.metric_name(), "l2_diff");
    assert_eq!(rows[0].value.to_bits(), 5.0_f64.to_bits());
    assert_eq!(rows[1].steps_per_run, 250);
    assert_eq!(rows[1].metric, CurveMetric::MaxAbsDiff);
    assert_eq!(rows[1].metric.metric_name(), "max_abs_diff");
    assert_eq!(rows[1].value.to_bits(), 4.0_f64.to_bits());
}
