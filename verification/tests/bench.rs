use dsfb::bench::{canonical_method_list, is_listed, EqualMethod, Manifest, NisMode, TimingAccumulator};
use dsfb::binary64::Binary64;
use dsfb::events::ReentryEventState;
use dsfb::rlt::RltExampleKind;

fn read(x: Binary64) -> f64 {
    f64::from_bits(x.to_bits())
}

fn soft(x: f64) -> Binary64 {
    Binary64::from_bits(x.to_bits())
}

fn strings(names: &[&str]) -> Vec<String> {
    names.iter().map(|s| s.to_string()).collect()
}

#[test]
fn canonical_list_orders_and_filters() {
    let raw = strings(&["dsfb", "bogus", "equal", "nis_soft", "dsfb"]);
    assert_eq!(canonical_method_list(&raw), strings(&["equal", "nis_soft", "dsfb"]));
    assert_eq!(canonical_method_list(&[]), Vec::<String>::new());
    assert_eq!(canonical_method_list(&strings(&["unknown"])), Vec::<String>::new());
    let all = strings(&["dsfb", "nis_soft", "nis_hard", "irls_huber", "cov_inflate", "equal"]);
    assert_eq!(
        canonical_method_list(&all),
        strings(&["equal", "cov_inflate", "irls_huber", "nis_hard", "nis_soft", "dsfb"])
    );
}

#[test]
fn listed_means_exact_match() {
    let raw = strings(&["equal", "Dsfb"]);
    assert!(is_listed(&raw, "equal"));
    assert!(!is_listed(&raw, "dsfb"));
    assert!(!is_listed(&raw, "equ"));
}

#[test]
fn equal_method_has_name_and_no_weights() {
    let method = EqualMethod::default();
    assert_eq!(method.name(), "equal");
    assert!(!method.has_weights());
}

#[test]
fn gating_modes_have_names() {
    assert_eq!(NisMode::Hard.name(), "nis_hard");
    assert_eq!(NisMode::Soft.name(), "nis_soft");
}

#[test]
fn hard_gate_drops_above_threshold() {
    let (threshold, scale) = (soft(3.0), soft(0.5));
    assert_eq!(read(NisMode::Hard.weight(soft(2.9), threshold, scale)), 1.0);
    assert_eq!(read(NisMode::Hard.weight(soft(3.0), threshold, scale)), 1.0);
    assert_eq!(read(NisMode::Hard.weight(soft(3.1), threshold, scale)), 0.0);
    assert_eq!(read(NisMode::Hard.weight(soft(f64::NAN), threshold, scale)), 1.0);
}

#[test]
fn soft_gate_weighs_down_by_excess() {
    let (threshold, scale) = (soft(3.0), soft(0.5));
    assert_eq!(read(NisMode::Soft.weight(soft(1.0), threshold, scale)), 1.0);
    assert_eq!(read(NisMode::Soft.weight(soft(3.0), threshold, scale)), 1.0);
    assert_eq!(read(NisMode::Soft.weight(soft(5.0), threshold, scale)), 0.5);
    assert_eq!(read(NisMode::Soft.weight(soft(9.0), threshold, scale)), 0.25);
    assert_eq!(read(NisMode::Soft.weight(soft(f64::NAN), threshold, scale)), 1.0);
    for nis in [0.0_f64, 2.5, 3.5, 4.75, 100.0, 1e300] {
        let excess = (nis - 3.0).max(0.0);
        let expected = (1.0 / (1.0 + 0.5 * excess)).clamp(0.0, 1.0);
        assert_eq!(
            read(NisMode::Soft.weight(soft(nis), threshold, scale)).to_bits(),
            expected.to_bits()
        );
    }
}

#[test]
fn manifest_holds_what_it_is_given() {
    let manifest = Manifest {
        schema_version: "1.0.0".to_string(),
        mode: "default".to_string(),
        methods: strings(&["equal", "dsfb"]),
        seeds: vec![1, 2, 3],
        note: String::new(),
    };
    assert_eq!(manifest.methods.len(), 2);
    assert_eq!(manifest.seeds, vec![1, 2, 3]);
    assert_eq!(manifest.schema_version, "1.0.0");
    assert_eq!(manifest.mode, "default");
    assert!(manifest.note.is_empty());
}

#[test]
fn timing_accumulates_and_averages() {
    let mut timing = TimingAccumulator::default();
    assert_eq!(read(timing.avg_solve_us()), 0.0);
    assert_eq!(read(timing.avg_total_us()), 0.0);

    timing.observe(1_500, 4_000);
    timing.observe(2_500, 6_000);
    assert_eq!(timing.solve_time, 4_000);
    assert_eq!(timing.total_time, 10_000);
    assert_eq!(timing.steps, 2);

    let solve = std::time::Duration::from_nanos(4_000);
    let total = std::time::Duration::from_nanos(10_000);
    assert_eq!(
        read(timing.avg_solve_us()).to_bits(),
        ((solve.as_secs_f64() * 1e6) / 2.0).to_bits()
    );
    assert_eq!(
        read(timing.avg_total_us()).to_bits(),
        ((total.as_secs_f64() * 1e6) / 2.0).to_bits()
    );
}

#[test]
fn timing_average_matches_duration_arithmetic_for_long_times() {
    let mut timing = TimingAccumulator::new();
    let nanos: u128 = 12_345_678_901_234_567;
    timing.observe(nanos, nanos + 999_999_999);
    timing.observe(0, 0);
    timing.observe(1, 1);
    let secs = ((nanos + 1) / 1_000_000_000) as u64;
    let rest = ((nanos + 1) % 1_000_000_000) as u32;
    let solve = std::time::Duration::new(secs, rest);
    assert_eq!(
        read(timing.avg_solve_us()).to_bits(),
        ((solve.as_secs_f64() * 1e6) / 3.0).to_bits()
    );
}

#[test]
fn timing_refuses_what_does_not_fit() {
    let longest: u128 = 18_446_744_073_709_551_615_999_999_999;
    let mut timing = TimingAccumulator::new();
    assert!(timing.try_observe(longest, 5));
    assert_eq!(timing.steps, 1);
    assert!(!timing.try_observe(1, 0));
    assert_eq!(timing.solve_time, longest);
    assert_eq!(timing.total_time, 5);
    assert_eq!(timing.steps, 1);
    assert!(timing.try_observe(0, longest - 5));
    assert_eq!(timing.steps, 2);
}

#[test]
fn example_kinds_have_file_prefixes() {
    assert_eq!(RltExampleKind::Bounded.filename_prefix(), "bounded");
    assert_eq!(RltExampleKind::Expanding.filename_prefix(), "expanding");
}

#[test]
fn no_event_is_under_way_by_default() {
    assert!(!ReentryEventState::default().tile_loss_active);
}

fn reference_adaptive(alpha: f64, beta: f64, w_min: f64, envelope: f64, nis: f64) -> (f64, f64) {
    let score = nis.sqrt();
    let envelope = (1.0 - beta) * envelope + beta * score;
    let excess = (envelope - 1.0).max(0.0);
    let trust = (-alpha * excess).exp();
    (envelope, trust.clamp(w_min, 1.0))
}

#[test]
fn adaptive_method_follows_its_envelope() {
    let k = |x: f64| dsfb::binary64::Binary64::from_bits(x.to_bits());
    let mut envelope = 1.0_f64;
    let mut ours = k(1.0);
    for (step, nis) in [0.5, 1.0, 4.0, 9.0, 25.0, 2.0, 0.1, 0.0, 1e6].into_iter().enumerate() {
        let (alpha, beta, w_min) = (1.0 + step as f64 * 0.25, 0.1, 0.1);
        let expected = reference_adaptive(alpha, beta, w_min, envelope, nis);
        ours = dsfb::bench::advance_adaptive_envelope(k(beta), ours, k(nis));
        assert_eq!(ours.to_bits(), expected.0.to_bits());
        let exponent = f64::from_bits(dsfb::bench::adaptive_exponent(k(alpha), ours).to_bits());
        let excess = (expected.0 - 1.0).max(0.0);
        assert_eq!(exponent, -alpha * excess);
        let weight = dsfb::bench::adaptive_weight(k(exponent.exp()), k(w_min));
        assert_eq!(weight.to_bits(), expected.1.to_bits());
        envelope = expected.0;
    }
}

#[test]
fn adaptive_envelope_literal() {
    let k = |x: f64| dsfb::binary64::Binary64::from_bits(x.to_bits());
    let next = dsfb::bench::advance_adaptive_envelope(k(0.5), k(1.0), k(9.0));
    assert_eq!(f64::from_bits(next.to_bits()), 2.0);
    let exponent = dsfb::bench::adaptive_exponent(k(2.0), next);
    assert_eq!(f64::from_bits(exponent.to_bits()), -2.0);
    let below = dsfb::bench::adaptive_exponent(k(2.0), k(0.5));
    assert_eq!(f64::from_bits(below.to_bits()), 0.0);
}

#[test]
fn adaptive_weight_is_held_between_floor_and_one() {
    let k = |x: f64| dsfb::binary64::Binary64::from_bits(x.to_bits());
    let u = |x: dsfb::binary64::Binary64| f64::from_bits(x.to_bits());
    assert_eq!(u(dsfb::bench::adaptive_weight(k(0.05), k(0.1))), 0.1);
    assert_eq!(u(dsfb::bench::adaptive_weight(k(0.4), k(0.1))), 0.4);
    assert_eq!(u(dsfb::bench::adaptive_weight(k(1.5), k(0.1))), 1.0);
    assert_eq!(u(dsfb::bench::adaptive_weight(k(1.0), k(1.0))), 1.0);
    assert!(u(dsfb::bench::adaptive_weight(k(f64::NAN), k(0.1))).is_nan());
}

#[test]
fn methods_are_picked_by_name() {
    let names = ["equal", "cov_inflate", "irls_huber", "nis_hard", "nis_soft", "dsfb"];
    let kinds = [
        dsfb::bench::MethodKind::Equal,
        dsfb::bench::MethodKind::CovInflate,
        dsfb::bench::MethodKind::IrlsHuber,
        dsfb::bench::MethodKind::NisHard,
        dsfb::bench::MethodKind::NisSoft,
        dsfb::bench::MethodKind::Dsfb,
    ];
    let weights = [false, true, false, true, true, true];
    for i in 0..names.len() {
        assert_eq!(dsfb::bench::build_method(names[i]), Some(kinds[i]));
        assert_eq!(kinds[i].name(), names[i]);
        assert_eq!(kinds[i].has_weights(), weights[i]);
    }
    assert_eq!(dsfb::bench::build_method("Equal"), None);
    assert_eq!(dsfb::bench::build_method(""), None);
    assert_eq!(dsfb::bench::build_method("dsfb "), None);
    assert_eq!(dsfb::bench::build_method("ekf"), None);
}
