use dsfb::error::{push_decimal, ConfigurationError, Field, HretError, InputError};

const NAN_BITS: u64 = 0x7FF8_0000_0000_0000;

#[test]
fn decimal_numerals_are_written_out() {
    for n in [0_usize, 7, 10, 42, 100, 909, 123_456_789, usize::MAX] {
        let mut out = String::from("n=");
        push_decimal(&mut out, n);
        assert_eq!(out, format!("n={n}"));
    }
}

#[test]
fn configuration_messages_name_field_and_cause() {
    let cases = [
        (
            ConfigurationError::NotPositive { field: Field::ChannelCount },
            "m must be > 0 (got 0)",
        ),
        (
            ConfigurationError::NotPositive { field: Field::GroupCount },
            "g must be > 0 (got 0)",
        ),
        (
            ConfigurationError::LengthMismatch { field: Field::GroupMapping, expected: 2, got: 1 },
            "group_mapping length mismatch: expected 2, got 1",
        ),
        (
            ConfigurationError::LengthMismatch { field: Field::GainRow(3), expected: 12, got: 0 },
            "k_k[3] length mismatch: expected 12, got 0",
        ),
        (
            ConfigurationError::NotInUnitInterval { field: Field::Rho, index: None, bits: 0 },
            "rho must be finite and in (0, 1)",
        ),
        (
            ConfigurationError::NotInUnitInterval { field: Field::RhoG, index: Some(4), bits: 1 },
            "rho_g[4] must be finite and in (0, 1)",
        ),
        (
            ConfigurationError::NotAboveZero { field: Field::Sigma0, bits: 0 },
            "sigma0 must be finite and > 0",
        ),
        (ConfigurationError::NotFinite { field: Field::KPhi, bits: NAN_BITS }, "k_phi must be finite"),
        (ConfigurationError::NotFinite { field: Field::KOmega, bits: NAN_BITS }, "k_omega must be finite"),
        (ConfigurationError::NotFinite { field: Field::KAlpha, bits: NAN_BITS }, "k_alpha must be finite"),
        (
            ConfigurationError::NotFiniteNonNegative {
                field: Field::BetaK,
                index: Some(10),
                bits: NAN_BITS,
            },
            "beta_k[10] must be finite and >= 0",
        ),
        (
            ConfigurationError::NotFiniteNonNegative {
                field: Field::BetaG,
                index: Some(0),
                bits: NAN_BITS,
            },
            "beta_g[0] must be finite and >= 0",
        ),
        (
            ConfigurationError::NotFiniteNonNegative {
                field: Field::Envelope,
                index: None,
                bits: NAN_BITS,
            },
            "s0 must be finite and >= 0",
        ),
        (
            ConfigurationError::GroupOutOfRange { channel: 1, group: 5, groups: 2 },
            "group_mapping[1] = 5 is out of range 0..2",
        ),
        (ConfigurationError::EmptyGainMatrix, "k_k must contain at least one gain row"),
        (
            ConfigurationError::GainNotFinite { row: 0, column: 17, bits: NAN_BITS },
            "k_k[0][17] must be finite",
        ),
    ];
    for (error, text) in cases {
        assert_eq!(error.message(), text);
        let wrapped = HretError::Configuration(error);
        assert_eq!(wrapped.message(), text);
        assert!(wrapped.is_configuration());
        assert!(!wrapped.is_input());
    }
}

#[test]
fn input_messages_name_the_vector() {
    let cases = [
        (
            InputError::LengthMismatch { expected: 8, got: 9 },
            "residuals length mismatch: expected 8, got 9",
        ),
        (InputError::NotFinite { index: 3, bits: NAN_BITS }, "residuals[3] must be finite"),
        (InputError::TimeStepNotFinite, "dt must be finite"),
        (
            InputError::ResidualNotFinite { index: 12, bits: NAN_BITS },
            "the residual of measurement 12 against the prediction must be finite",
        ),
    ];
    for (error, text) in cases {
        assert_eq!(error.message(), text);
        let wrapped = HretError::Input(error);
        assert_eq!(wrapped.message(), text);
        assert!(wrapped.is_input());
        assert!(!wrapped.is_configuration());
    }
}

#[test]
fn rejections_hand_out_the_refused_number() {
    let refused = ConfigurationError::NotFiniteNonNegative {
        field: Field::BetaK,
        index: Some(2),
        bits: (-0.5_f64).to_bits(),
    };
    assert_eq!(refused.offending().map(|x| x.to_bits()), Some((-0.5_f64).to_bits()));
    assert_eq!(
        HretError::Configuration(refused).offending().map(|x| x.to_bits()),
        Some((-0.5_f64).to_bits())
    );
    let refused = InputError::NotFinite { index: 0, bits: f64::INFINITY.to_bits() };
    assert_eq!(refused.offending().map(|x| x.to_bits()), Some(f64::INFINITY.to_bits()));
    assert_eq!(
        HretError::Input(refused).offending().map(|x| x.to_bits()),
        Some(f64::INFINITY.to_bits())
    );
    let refused = InputError::ResidualNotFinite { index: 1, bits: NAN_BITS };
    assert_eq!(refused.offending().map(|x| x.to_bits()), Some(NAN_BITS));

    assert!(ConfigurationError::EmptyGainMatrix.offending().is_none());
    assert!(ConfigurationError::NotPositive { field: Field::ChannelCount }.offending().is_none());
    assert!(InputError::LengthMismatch { expected: 2, got: 3 }.offending().is_none());
    assert!(InputError::TimeStepNotFinite.offending().is_none());
}
