use dsfb::binary64::Binary64;
use dsfb::error::{ConfigurationError, Field, HretError, InputError};
use dsfb::hret::{
    advance_groups, apply_gains, compose_trust, dot_product, group_channels, mean_magnitude,
    trust_scores, validate_gains, weigh, HretObserver,
};
use dsfb::trust::weights_are_convex;

fn n(x: f64) -> Binary64 {
    Binary64::from_bits(x.to_bits())
}

fn v(x: Binary64) -> f64 {
    f64::from_bits(x.to_bits())
}

fn ns(xs: &[f64]) -> Vec<Binary64> {
    xs.iter().map(|&x| n(x)).collect()
}

fn vs(xs: &[Binary64]) -> Vec<f64> {
    xs.iter().map(|&x| v(x)).collect()
}

fn patterns(xs: &[Binary64]) -> Vec<u64> {
    xs.iter().map(|x| x.to_bits()).collect()
}

fn observer(m: usize, mapping: Vec<usize>, g: usize, rho: f64, beta: f64, rows: usize) -> HretObserver {
    HretObserver::new(
        m,
        g,
        mapping,
        n(rho),
        ns(&vec![rho; g]),
        ns(&vec![beta; m]),
        ns(&vec![beta; g]),
        vec![ns(&vec![1.0; m]); rows],
    )
    .expect("valid configuration")
}

fn rejection(result: Result<HretObserver, HretError>) -> ConfigurationError {
    match result.expect_err("must be refused") {
        HretError::Configuration(e) => e,
        HretError::Input(e) => panic!("refused as input: {e:?}"),
    }
}

#[test]
fn weights_are_convex_for_finite_residuals() {
    let mut obs = HretObserver::new(
        5,
        3,
        vec![0, 2, 2, 0, 1],
        n(0.9),
        ns(&[0.5, 0.8, 0.95]),
        ns(&[0.0, 1.0, 2.5, 10.0, 0.3]),
        ns(&[4.0, 0.0, 1.0]),
        vec![ns(&[1.0, -1.0, 0.5, 0.0, 2.0]), ns(&[0.1, 0.2, 0.3, 0.4, 0.5])],
    )
    .expect("valid configuration");
    let inputs = [
        [0.0, 0.0, 0.0, 0.0, 0.0],
        [1.0, -2.0, 3.0, -4.0, 5.0],
        [1e-9, 1e9, -1e-300, 1e300, 0.5],
        [f64::MAX, f64::MIN, 1.0, -1.0, f64::MIN_POSITIVE],
        [0.25, 0.25, 0.25, 0.25, 0.25],
    ];
    for residuals in inputs {
        let (delta_x, weights, s_k, s_g) = obs.update(ns(&residuals)).expect("finite residuals");
        assert_eq!(delta_x.len(), 2);
        assert_eq!(weights.len(), 5);
        assert_eq!(s_k.len(), 5);
        assert_eq!(s_g.len(), 3);
        assert!(weights_are_convex(&weights));
        let total: f64 = vs(&weights).iter().sum();
        assert!((total - 1.0).abs() <= 1e-9);
        assert!(vs(&weights).iter().all(|w| (0.0..=1.0).contains(w)));
        assert!(vs(&s_k).iter().all(|s| *s >= 0.0));
        assert!(vs(&s_g).iter().all(|s| *s >= 0.0));
    }
}

#[test]
fn identical_channels_and_groups_share_the_weight() {
    let mut obs = observer(4, vec![0, 1, 2, 3], 4, 0.7, 2.0, 1);
    let (_, weights, _, _) = obs.update(ns(&[0.3, -0.3, 0.3, -0.3])).expect("finite residuals");
    let weights = vs(&weights);
    for w in &weights {
        assert_eq!(w.to_bits(), weights[0].to_bits());
        assert_eq!(*w, 0.25);
    }

    let mut obs = observer(3, vec![0, 0, 0], 1, 0.7, 2.0, 1);
    let (_, weights, _, _) = obs.update(ns(&[0.3, 0.3, 0.3])).expect("finite residuals");
    let weights = vs(&weights);
    for w in &weights {
        assert_eq!(w.to_bits(), weights[0].to_bits());
        assert!((w - 1.0 / 3.0).abs() < 1e-15);
    }
}

#[test]
fn underflow_engages_uniform_fallback_with_distinct_groups() {
    let mut obs = HretObserver::new(
        2,
        2,
        vec![0, 1],
        n(0.5),
        ns(&[0.5, 0.5]),
        ns(&[1e308, 1e308]),
        ns(&[1e308, 1e308]),
        vec![ns(&[1.0, 1.0])],
    )
    .expect("valid configuration");
    let (_, weights, _, _) = obs.update(ns(&[1e308, 1e308])).expect("finite residuals");
    assert_eq!(vs(&weights), vec![0.5, 0.5]);
}

#[test]
fn hierarchical_correction_has_literal_values() {
    let mut obs = observer(2, vec![0, 1], 2, 0.5, 1.0, 1);
    let (delta_x, weights, s_k, s_g) = obs.update(ns(&[1.0, 1.0])).expect("finite residuals");
    assert_eq!(vs(&weights), vec![0.5, 0.5]);
    assert_eq!(vs(&delta_x), vec![1.0]);
    assert_eq!(vs(&s_k), vec![0.5, 0.5]);
    assert_eq!(vs(&s_g), vec![0.5, 0.5]);
}

#[test]
fn update_matches_reference_formulas_bit_for_bit() {
    let mapping = vec![1_usize, 0, 1, 1];
    let (rho, rho_g) = (0.9_f64, [0.8_f64, 0.6, 0.5]);
    let beta_k = [0.5_f64, 1.0, 2.0, 4.0];
    let beta_g = [3.0_f64, 0.25, 7.0];
    let gains = [[1.0_f64, 2.0, -1.0, 0.5], [0.0, 0.25, 0.75, -2.0]];
    let mut obs = HretObserver::new(
        4,
        3,
        mapping.clone(),
        n(rho),
        ns(&rho_g),
        ns(&beta_k),
        ns(&beta_g),
        gains.iter().map(|row| ns(row)).collect(),
    )
    .expect("valid configuration");

    let mut s_k = [0.0_f64; 4];
    let mut s_g = [0.0_f64; 3];
    for r in [[0.5_f64, -0.25, 1.5, 0.0], [2.0, 2.0, -3.0, 0.125], [-0.1, 0.2, -0.3, 0.4]] {
        let (delta_x, weights, got_s_k, got_s_g) = obs.update(ns(&r)).expect("finite residuals");

        for k in 0..4 {
            s_k[k] = rho * s_k[k] + (1.0 - rho) * r[k].abs();
        }
        for g in 0..3 {
            let members: Vec<usize> = (0..4).filter(|&k| mapping[k] == g).collect();
            if members.is_empty() {
                continue;
            }
            let mut total = 0.0_f64;
            for &k in &members {
                total += r[k].abs();
            }
            let avg = total / members.len() as f64;
            s_g[g] = rho_g[g] * s_g[g] + (1.0 - rho_g[g]) * avg;
        }
        let w_k: Vec<f64> = (0..4).map(|k| 1.0 / (1.0 + beta_k[k] * s_k[k])).collect();
        let w_g: Vec<f64> = (0..3).map(|g| 1.0 / (1.0 + beta_g[g] * s_g[g])).collect();
        let hat: Vec<f64> = (0..4).map(|k| w_k[k] * w_g[mapping[k]]).collect();
        let mut sum_hat = 0.0_f64;
        for h in &hat {
            sum_hat += h;
        }
        let tilde: Vec<f64> = if sum_hat > 1e-12 {
            hat.iter().map(|h| h / sum_hat).collect()
        } else {
            vec![1.0 / 4.0; 4]
        };
        let weighted: Vec<f64> = (0..4).map(|k| tilde[k] * r[k]).collect();
        let expected_delta: Vec<f64> = gains
            .iter()
            .map(|row| {
                let mut acc = 0.0_f64;
                for k in 0..4 {
                    acc += row[k] * weighted[k];
                }
                acc
            })
            .collect();

        assert_eq!(patterns(&got_s_k), s_k.iter().map(|x| x.to_bits()).collect::<Vec<_>>());
        assert_eq!(patterns(&got_s_g), s_g.iter().map(|x| x.to_bits()).collect::<Vec<_>>());
        assert_eq!(patterns(&weights), tilde.iter().map(|x| x.to_bits()).collect::<Vec<_>>());
        assert_eq!(
            patterns(&delta_x),
            expected_delta.iter().map(|x| x.to_bits()).collect::<Vec<_>>()
        );
    }
    assert_eq!(s_g[2], 0.0);
}

#[test]
fn reset_then_steps_repeat_a_fresh_trajectory() {
    let mut used = observer(3, vec![0, 1, 1], 2, 0.8, 1.5, 2);
    used.update(ns(&[5.0, -7.0, 0.5])).expect("finite residuals");
    used.update(ns(&[0.1, 0.2, 0.3])).expect("finite residuals");
    used.reset_envelopes();
    let mut fresh = observer(3, vec![0, 1, 1], 2, 0.8, 1.5, 2);

    for residuals in [[0.0, 0.0, 0.0], [1.0, 2.0, -3.0], [0.0, 0.0, 0.0], [-0.5, 0.25, 8.0]] {
        let a = used.update(ns(&residuals)).expect("finite residuals");
        let b = fresh.update(ns(&residuals)).expect("finite residuals");
        assert_eq!(patterns(&a.0), patterns(&b.0));
        assert_eq!(patterns(&a.1), patterns(&b.1));
        assert_eq!(patterns(&a.2), patterns(&b.2));
        assert_eq!(patterns(&a.3), patterns(&b.3));
    }
}

#[test]
fn reset_zeroes_all_envelopes_at_once() {
    let mut obs = observer(3, vec![0, 1, 1], 2, 0.8, 1.5, 1);
    obs.update(ns(&[5.0, -7.0, 0.5])).expect("finite residuals");
    obs.reset_envelopes();
    let (delta_x, weights, s_k, s_g) = obs.update(ns(&[0.0, 0.0, 0.0])).expect("finite residuals");
    assert_eq!(patterns(&s_k), vec![0, 0, 0]);
    assert_eq!(patterns(&s_g), vec![0, 0]);
    assert_eq!(vs(&delta_x), vec![0.0]);
    let weights = vs(&weights);
    assert!(weights.iter().all(|w| w.to_bits() == weights[0].to_bits()));
    assert_eq!(obs.channel_count(), 3);
    assert_eq!(obs.group_count(), 2);
    assert_eq!(obs.group_mapping_vec(), vec![0, 1, 1]);
}

#[test]
fn refused_input_leaves_every_envelope_as_it_was() {
    let mut obs = observer(3, vec![0, 1, 1], 2, 0.8, 1.5, 1);
    let (_, _, s_k, s_g) = obs.update(ns(&[5.0, -7.0, 0.5])).expect("finite residuals");

    for (bad, expected) in [
        (
            vec![f64::NAN, 0.0, 0.0],
            InputError::NotFinite { index: 0, bits: f64::NAN.to_bits() },
        ),
        (
            vec![0.0, 1.0, f64::INFINITY],
            InputError::NotFinite { index: 2, bits: f64::INFINITY.to_bits() },
        ),
        (
            vec![0.0, f64::NEG_INFINITY, f64::NAN],
            InputError::NotFinite { index: 1, bits: f64::NEG_INFINITY.to_bits() },
        ),
        (vec![0.0, 1.0], InputError::LengthMismatch { expected: 3, got: 2 }),
        (vec![], InputError::LengthMismatch { expected: 3, got: 0 }),
        (vec![f64::NAN; 4], InputError::LengthMismatch { expected: 3, got: 4 }),
    ] {
        let error = obs.update(ns(&bad)).expect_err("must be refused");
        assert_eq!(error, HretError::Input(expected));
    }

    let mut twin = observer(3, vec![0, 1, 1], 2, 0.8, 1.5, 1);
    twin.update(ns(&[5.0, -7.0, 0.5])).expect("finite residuals");
    let after = obs.update(ns(&[0.25, 0.5, 0.75])).expect("finite residuals");
    let reference = twin.update(ns(&[0.25, 0.5, 0.75])).expect("finite residuals");
    assert_eq!(patterns(&after.2), patterns(&reference.2));
    assert_eq!(patterns(&after.3), patterns(&reference.3));
    assert_ne!(patterns(&after.2), patterns(&s_k));
    assert_ne!(patterns(&after.3), patterns(&s_g));
}

#[test]
fn empty_group_keeps_its_envelope() {
    let mut obs = observer(2, vec![0, 2], 3, 0.5, 1.0, 1);
    for _ in 0..3 {
        let (_, _, _, s_g) = obs.update(ns(&[4.0, 8.0])).expect("finite residuals");
        assert_eq!(v(s_g[1]).to_bits(), 0);
        assert!(v(s_g[0]) > 0.0);
        assert!(v(s_g[2]) > v(s_g[0]));
    }
}

#[test]
fn distrusted_group_suppresses_its_quiet_channel() {
    let mut obs = observer(4, vec![0, 0, 1, 1], 2, 0.5, 4.0, 1);
    let mut weights = Vec::new();
    for _ in 0..20 {
        weights = vs(&obs.update(ns(&[0.0, 3.0, 0.0, 0.0])).expect("finite residuals").1);
    }
    assert!(weights[0] < weights[2]);
    assert_eq!(weights[2].to_bits(), weights[3].to_bits());
    assert!(weights[1] < weights[0]);
}

#[test]
fn construction_refuses_each_defect_in_order() {
    let base = || {
        (
            2_usize,
            2_usize,
            vec![0_usize, 1],
            0.5_f64,
            vec![0.5_f64, 0.5],
            vec![1.0_f64, 1.0],
            vec![1.0_f64, 1.0],
            vec![vec![1.0_f64, 1.0]],
        )
    };
    let build = |c: (usize, usize, Vec<usize>, f64, Vec<f64>, Vec<f64>, Vec<f64>, Vec<Vec<f64>>)| {
        HretObserver::new(
            c.0,
            c.1,
            c.2,
            n(c.3),
            ns(&c.4),
            ns(&c.5),
            ns(&c.6),
            c.7.iter().map(|row| ns(row)).collect(),
        )
    };
    assert!(build(base()).is_ok());

    let mut c = base();
    c.0 = 0;
    c.1 = 0;
    assert_eq!(rejection(build(c)), ConfigurationError::NotPositive { field: Field::ChannelCount });

    let mut c = base();
    c.1 = 0;
    c.2 = vec![];
    assert_eq!(rejection(build(c)), ConfigurationError::NotPositive { field: Field::GroupCount });

    let mut c = base();
    c.2 = vec![0, 1, 1];
    c.4 = vec![];
    assert_eq!(
        rejection(build(c)),
        ConfigurationError::LengthMismatch { field: Field::GroupMapping, expected: 2, got: 3 }
    );

    let mut c = base();
    c.4 = vec![0.5];
    c.5 = vec![];
    assert_eq!(
        rejection(build(c)),
        ConfigurationError::LengthMismatch { field: Field::RhoG, expected: 2, got: 1 }
    );

    let mut c = base();
    c.5 = vec![1.0];
    c.6 = vec![];
    assert_eq!(
        rejection(build(c)),
        ConfigurationError::LengthMismatch { field: Field::BetaK, expected: 2, got: 1 }
    );

    let mut c = base();
    c.6 = vec![1.0, 1.0, 1.0];
    c.3 = 2.0;
    assert_eq!(
        rejection(build(c)),
        ConfigurationError::LengthMismatch { field: Field::BetaG, expected: 2, got: 3 }
    );

    for rho in [0.0, 1.0, -0.1, f64::NAN, f64::INFINITY] {
        let mut c = base();
        c.3 = rho;
        c.4 = vec![0.0, 0.0];
        assert_eq!(
            rejection(build(c)),
            ConfigurationError::NotInUnitInterval {
                field: Field::Rho,
                index: None,
                bits: rho.to_bits()
            }
        );
    }

    let mut c = base();
    c.4 = vec![0.5, 1.0];
    c.5 = vec![-1.0, -1.0];
    assert_eq!(
        rejection(build(c)),
        ConfigurationError::NotInUnitInterval {
            field: Field::RhoG,
            index: Some(1),
            bits: 1.0_f64.to_bits()
        }
    );

    let mut c = base();
    c.5 = vec![0.0, -1e-300];
    c.6 = vec![f64::NAN, 1.0];
    assert_eq!(
        rejection(build(c)),
        ConfigurationError::NotFiniteNonNegative {
            field: Field::BetaK,
            index: Some(1),
            bits: (-1e-300_f64).to_bits()
        }
    );

    let mut c = base();
    c.6 = vec![f64::INFINITY, -1.0];
    c.2 = vec![5, 5];
    assert_eq!(
        rejection(build(c)),
        ConfigurationError::NotFiniteNonNegative {
            field: Field::BetaG,
            index: Some(0),
            bits: f64::INFINITY.to_bits()
        }
    );

    let mut c = base();
    c.2 = vec![1, 2];
    c.7 = vec![];
    assert_eq!(
        rejection(build(c)),
        ConfigurationError::GroupOutOfRange { channel: 1, group: 2, groups: 2 }
    );

    let mut c = base();
    c.7 = vec![];
    assert_eq!(rejection(build(c)), ConfigurationError::EmptyGainMatrix);

    let mut c = base();
    c.7 = vec![vec![1.0, 1.0], vec![1.0], vec![f64::NAN, 1.0]];
    assert_eq!(
        rejection(build(c)),
        ConfigurationError::LengthMismatch { field: Field::GainRow(1), expected: 2, got: 1 }
    );

    let mut c = base();
    c.7 = vec![vec![1.0, 1.0], vec![1.0, f64::NEG_INFINITY], vec![1.0]];
    assert_eq!(
        rejection(build(c)),
        ConfigurationError::GainNotFinite {
            row: 1,
            column: 1,
            bits: f64::NEG_INFINITY.to_bits()
        }
    );
}

#[test]
fn negative_zero_sensitivity_is_accepted() {
    assert!(HretObserver::new(
        1,
        1,
        vec![0],
        n(0.5),
        ns(&[0.5]),
        ns(&[-0.0]),
        ns(&[0.0]),
        vec![ns(&[-3.0])],
    )
    .is_ok());
}

#[test]
fn group_channels_lists_members_in_order() {
    let lists = group_channels(&vec![2, 0, 2, 1, 2], 4).expect("in range");
    assert_eq!(lists, vec![vec![1], vec![3], vec![0, 2, 4], vec![]]);
    assert_eq!(
        group_channels(&vec![0, 3, 9], 3).expect_err("out of range"),
        ConfigurationError::GroupOutOfRange { channel: 1, group: 3, groups: 3 }
    );
    assert_eq!(group_channels(&vec![], 2).expect("in range"), vec![Vec::<usize>::new(); 2]);
}

#[test]
fn gain_matrix_is_checked_row_by_row() {
    assert_eq!(validate_gains(&vec![], 2), Err(ConfigurationError::EmptyGainMatrix));
    assert_eq!(validate_gains(&vec![ns(&[1.0, 2.0]), ns(&[3.0, 4.0])], 2), Ok(()));
    assert_eq!(
        validate_gains(&vec![ns(&[1.0, 2.0]), ns(&[3.0, f64::NAN])], 2),
        Err(ConfigurationError::GainNotFinite { row: 1, column: 1, bits: f64::NAN.to_bits() })
    );
}

#[test]
fn building_blocks_have_literal_values() {
    assert_eq!(v(mean_magnitude(&ns(&[1.0, -2.0, 3.0, -6.0]), &vec![1, 3])), 4.0);
    assert_eq!(vs(&trust_scores(&ns(&[1.0, 3.0]), &ns(&[1.0, 1.0]))), vec![0.5, 0.25]);
    assert_eq!(
        vs(&compose_trust(&ns(&[0.5, 0.25, 1.0]), &ns(&[0.5, 2.0]), &vec![1, 0, 1])),
        vec![1.0, 0.125, 2.0]
    );
    assert_eq!(vs(&weigh(&ns(&[0.5, 0.25]), &ns(&[4.0, -8.0]))), vec![2.0, -2.0]);
    assert_eq!(v(dot_product(&ns(&[1.0, 2.0, 3.0]), &ns(&[4.0, 5.0, 6.0]))), 32.0);
    assert_eq!(
        vs(&apply_gains(&vec![ns(&[1.0, 0.0]), ns(&[0.5, 0.5]), ns(&[0.0, -1.0])], &ns(&[2.0, 4.0]))),
        vec![2.0, 3.0, -4.0]
    );

    let mut envelopes = ns(&[1.0, 2.0, 3.0]);
    advance_groups(
        &ns(&[0.5, 0.5, 0.5]),
        &mut envelopes,
        &vec![vec![0, 1], vec![], vec![2]],
        &ns(&[2.0, -4.0, 9.0]),
    );
    assert_eq!(vs(&envelopes), vec![2.0, 2.0, 6.0]);
}
