use ctrl_freeq::basis::{BasisKind, Fourier, basis, basis_names, envelope_names, initial_params, qubit_basis_columns};
use ctrl_freeq::config::WaveformMode;
use ctrl_freeq::config::WaveformMode::{Cart, Polar, PolarPhase};
use ctrl_freeq::error::Error;

/// Deterministic draws in [-1, 1).
fn raw_coefficients(n_para: usize, seed: u64) -> Vec<f64> {
    let mut s = seed.wrapping_add(0x9E3779B97F4A7C15);
    (0..n_para)
        .map(|_| {
            s ^= s << 13;
            s ^= s >> 7;
            s ^= s << 17;
            -1.0 + 2.0 * ((s >> 11) as f64 / (1u64 << 53) as f64)
        })
        .collect()
}

/// The parameter-count table and the matching column counts.
#[test]
fn parameter_and_column_counts_follow_the_python_rules() {
    let cheb = basis("cheb").unwrap();
    let fou = basis("fou").unwrap();
    assert_eq!((cheb.columns(16, Cart), cheb.parameter_count(16, Cart)), (8, 16));
    assert_eq!((cheb.columns(16, Polar), cheb.parameter_count(16, Polar)), (8, 16));
    assert_eq!(
        (cheb.columns(16, PolarPhase), cheb.parameter_count(16, PolarPhase)),
        (16, 17)
    );
    // Fourier cart/polar: n = (16 − 2)/4 = 3 → 7 columns, 14 parameters.
    assert_eq!((fou.columns(16, Cart), fou.parameter_count(16, Cart)), (7, 14));
    // Fourier polar_phase: n = (16 − 1)/2 = 7 → 15 columns, 16 parameters.
    assert_eq!(
        (fou.columns(16, PolarPhase), fou.parameter_count(16, PolarPhase)),
        (15, 16)
    );
    assert!(cheb.check_n_para(15, Cart).is_err());
    assert!(cheb.check_n_para(15, PolarPhase).is_ok());
    assert!(fou.check_n_para(1, Cart).is_err());
}

#[test]
fn initial_parameters_have_the_parameter_count() {
    let mut seed = 1;
    for name in basis_names() {
        let b = basis(name).unwrap();
        for mode in WaveformMode::ALL {
            for n_para in [6, 9, 16] {
                if b.check_n_para(n_para, mode).is_err() {
                    continue;
                }
                seed += 1;
                let raw = raw_coefficients(n_para, seed);
                assert!(raw.iter().all(|v| (-1.0..1.0).contains(v)));
                let x = initial_params(b, &raw, mode);
                assert_eq!(x.len(), b.parameter_count(n_para, mode), "{name} {mode:?} {n_para}");
                if mode == PolarPhase {
                    assert_eq!(x[x.len() - 1], x[x.len() - 2]);
                }
            }
        }
    }
}

#[test]
fn every_basis_name_is_known_and_named_back() {
    for name in basis_names() {
        assert_eq!(basis(name).unwrap().name(), *name);
    }
    assert_eq!(basis_names().len(), 8);
    assert_eq!(basis("leg"), Ok(BasisKind::Legendre));
    assert_eq!(envelope_names(), &["gn", "hs", "quad"]);
}

#[test]
fn unknown_bases_are_refused_with_the_list() {
    match basis("nope") {
        Err(Error::Config(m)) => assert_eq!(
            m,
            "unknown basis \"nope\"; choose one of cheb, leg, fou, poly, hermite, gegen, chirp, random"
        ),
        other => panic!("{other:?}"),
    }
}

#[test]
fn n_para_messages_say_why() {
    let cheb = basis("cheb").unwrap();
    assert_eq!(
        cheb.check_n_para(15, Cart),
        Err("n_para must be even and at least 2 in cart mode (got 15)".to_string())
    );
    assert_eq!(cheb.check_n_para(0, PolarPhase), Err("n_para must be at least 1".to_string()));
    let fou = basis("fou").unwrap();
    assert_eq!(
        fou.check_n_para(1, Polar),
        Err("n_para must be at least 2 for the Fourier basis in polar mode".to_string())
    );
    assert_eq!(fou.check_n_para(0, PolarPhase).unwrap_err(), "n_para must be at least 1 for the Fourier basis in polar_phase mode");
    assert!(fou.check_n_para(1, PolarPhase).is_ok());
}

#[test]
fn fourier_harmonics_follow_the_counting_rule() {
    assert_eq!(Fourier::harmonics(16, Cart), 3);
    assert_eq!(Fourier::harmonics(16, PolarPhase), 7);
    assert_eq!(Fourier::harmonics(1, Cart), 0);
    assert_eq!(Fourier::harmonics(0, PolarPhase), 0);
}

#[test]
fn initial_coefficients_keep_a_prefix() {
    let raw = [0.1, 0.2, 0.3, 0.4, 0.5];
    let cheb = BasisKind::Chebyshev;
    assert_eq!(cheb.initial_coefficients(&raw, Cart), vec![0.1, 0.2, 0.3, 0.4]);
    assert_eq!(cheb.initial_coefficients(&raw, PolarPhase), raw.to_vec());
    assert_eq!(initial_params(cheb, &raw, PolarPhase), vec![0.1, 0.2, 0.3, 0.4, 0.5, 0.5]);
    let fou = BasisKind::Fourier;
    // 5 draws in cart mode: one harmonic, 4·0 + 2 = 2 kept... (5 − 2)/4 = 0.
    assert_eq!(fou.initial_coefficients(&raw, Cart), vec![0.1, 0.2]);
    // polar_phase: (5 − 1)/2 = 2 harmonics, 5 kept, then the last repeated.
    assert_eq!(initial_params(fou, &raw, PolarPhase), vec![0.1, 0.2, 0.3, 0.4, 0.5, 0.5]);
}

#[test]
fn a_qubit_basis_needs_enough_points_and_a_matching_envelope() {
    assert_eq!(qubit_basis_columns(BasisKind::Chebyshev, 16, Cart, 100, 100), Ok(8));
    assert_eq!(qubit_basis_columns(BasisKind::Fourier, 18, Polar, 9, 9), Ok(9));
    assert_eq!(
        qubit_basis_columns(BasisKind::Chebyshev, 16, PolarPhase, 10, 10),
        Err(Error::Config("16 basis functions need at least 16 points in the pulse, not 10".into()))
    );
    assert_eq!(
        qubit_basis_columns(BasisKind::Legendre, 3, Cart, 100, 100),
        Err(Error::Config("n_para must be even and at least 2 in cart mode (got 3)".into()))
    );
    assert_eq!(
        qubit_basis_columns(BasisKind::Chebyshev, 4, Cart, 100, 99),
        Err(Error::Dimension("envelope length differs from the number of pulse points".into()))
    );
}
