use ctrl_freeq::config::{
    ConfigFacts, Coverage, Dissipation, Space, TargetFacts, Targets, WaveformMode, check, effective_space,
    from_raw, is_dissipative, validate,
};
use ctrl_freeq::error::Error;
use ctrl_freeq::hamiltonian::defaults::{DefaultTarget, default_layout, default_settings};
use ctrl_freeq::edit::add_initial_state;
use ctrl_freeq::hamiltonian::{model_kind, model_names};

fn names(v: &[&str]) -> Vec<String> {
    v.iter().map(|s| s.to_string()).collect()
}

/// The checks' view of a two-qubit spin chain that can run.
fn runnable() -> ConfigFacts {
    let n = 2;
    ConfigFacts {
        n_qubits: n,
        hamiltonian_type: Some("spin_chain".into()),
        omega_r_max: n,
        sigma_omega_r_max: vec![true; n],
        pulse_duration: vec![true; n],
        point_in_pulse: vec![100; n],
        wf_type: names(&["cheb", "cheb"]),
        wf_mode: vec![WaveformMode::Cart; n],
        amplitude_envelope: names(&["gn", "gn"]),
        amplitude_order: vec![1; n],
        coverage: vec![Coverage::Broadband; n],
        sw: vec![true; n],
        pulse_offset: n,
        pulse_bandwidth: vec![true; n],
        ratio_factor: vec![true; n],
        profile_order: vec![2; n],
        n_para: vec![16; n],
        delta: Some(n),
        sigma_delta: Some(vec![true; n]),
        coupling_problem: None,
        sigma_j: Some(true),
        coupling_type: Some("XY".into()),
        anharmonicities: None,
        stark_shift_coeffs: None,
        zz_crosstalk: None,
        dissipative: false,
        t1: None,
        t2: None,
        initial_states: vec![names(&["Z", "-Z"])],
        targets: TargetFacts::Gate(names(&["CNOT"])),
        gate_names: names(&["CNOT", "CZ", "SWAP", "iSWAP"]),
        h0_snapshots: 1,
        omega_r_snapshots: 1,
        algorithm: "l-bfgs".into(),
        max_iter: 300,
        targ_fid: true,
        compute_resource: Some("cpu".into()),
        cpu_cores: None,
    }
}

#[test]
fn a_runnable_configuration_has_no_problems() {
    let f = runnable();
    assert_eq!(validate(&f), Vec::<String>::new());
    assert_eq!(check(&f), Ok(()));
}

#[test]
fn no_qubits_is_the_only_problem_reported() {
    let mut f = runnable();
    f.n_qubits = 0;
    f.algorithm = "adam".into();
    assert_eq!(validate(&f), names(&["at least one qubit is needed"]));
    assert_eq!(check(&f), Err(Error::Config("at least one qubit is needed".into())));
}

#[test]
fn a_list_of_the_wrong_length_stops_the_per_qubit_checks() {
    let mut f = runnable();
    f.sw = vec![true];
    f.wf_type = names(&["cheb", "nope"]);
    f.max_iter = 0;
    assert_eq!(validate(&f), names(&["sw has 1 entries for 2 qubits"]));
}

#[test]
fn problems_are_listed_in_order_and_joined() {
    let mut f = runnable();
    f.wf_type = names(&["cheb", "nope"]);
    f.amplitude_order = vec![1, 0];
    f.max_iter = 0;
    f.cpu_cores = Some(0);
    let problems = validate(&f);
    assert_eq!(
        problems,
        names(&[
            "qubit 2: wf_type \"nope\" is not one of cheb, leg, fou, poly, hermite, gegen, chirp, random",
            "qubit 2: amplitude_order must be at least 1",
            "max_iter must be at least 1",
            "cpu_cores must be at least 1",
        ])
    );
    assert_eq!(check(&f), Err(Error::Config(problems.join("; "))));
}

#[test]
fn targets_must_match_the_initial_states() {
    let mut f = runnable();
    f.targets = TargetFacts::Gate(names(&["CNOT", "Toffoli"]));
    assert_eq!(
        validate(&f),
        names(&[
            "2 target entries for 1 initial states",
            "gate \"Toffoli\" is not one of CNOT, CZ, SWAP, iSWAP for 2 qubits",
        ])
    );
    f.targets = TargetFacts::Axis(vec![names(&["Z", "W"])]);
    assert_eq!(validate(&f), names(&["target 1: \"W\" is not one of Z, -Z, X, -X, Y, -Y"]));
}

#[test]
fn the_model_decides_which_fields_it_needs() {
    let mut f = runnable();
    f.hamiltonian_type = Some("duffing_transmon".into());
    f.dissipative = true;
    f.t1 = Some(vec![true, true]);
    f.t2 = Some(vec![(true, true), (true, true)]);
    assert_eq!(
        validate(&f),
        names(&[
            "the duffing_transmon model needs anharmonicities",
            "dissipative mode is not supported for the duffing_transmon model",
        ])
    );
    let mut f = runnable();
    f.hamiltonian_type = Some("quantum_dot".into());
    assert_eq!(
        validate(&f),
        names(&["hamiltonian_type \"quantum_dot\" is not one of spin_chain, superconducting, duffing_transmon"])
    );
}

#[test]
fn target_maps_take_the_first_complete_method() {
    let axis = Some(vec![Some(names(&["Z"]))]);
    let gate = Some(vec![Some("X".to_string())]);
    let phi = Some(vec![Some(names(&["x"]))]);
    let beta = Some(vec![Some(vec![90.0])]);
    assert!(matches!(from_raw(axis.clone(), gate.clone(), phi.clone(), beta.clone()), Ok(Targets::Axis(_))));
    assert!(matches!(from_raw(Some(vec![None]), gate.clone(), None, beta.clone()), Ok(Targets::Gate(_))));
    match from_raw(None, Some(vec![]), phi.clone(), beta.clone()) {
        Ok(Targets::PhiBeta { phi, beta }) => {
            assert_eq!(phi, vec![names(&["x"])]);
            assert_eq!(beta, vec![vec![90.0]]);
        }
        other => panic!("{other:?}"),
    }
    assert_eq!(
        from_raw::<f64>(None, None, phi, None).unwrap_err(),
        "target_states needs a complete \"Axis\", \"Gate\", or \"Phi\" and \"Beta\" list"
    );
    let t: Targets<f64> = Targets::Gate(names(&["X", "Y"]));
    assert_eq!(t.method(), "Gate");
    assert_eq!(t.len(), 2);
    assert!(!t.is_empty());
    assert_eq!(Targets::<f64>::PhiBeta { phi: vec![], beta: vec![] }.method(), "Phi");
}

#[test]
fn dissipative_runs_use_liouville_space() {
    assert!(is_dissipative(Some(Dissipation::Dissipative)));
    assert!(!is_dissipative(None));
    assert_eq!(effective_space(Some(Dissipation::Dissipative), Space::Hilbert), Space::Liouville);
    assert_eq!(effective_space(Some(Dissipation::NonDissipative), Space::Hilbert), Space::Hilbert);
    assert_eq!(effective_space(None, Space::Liouville), Space::Liouville);
}

/// The checks' view of a model's default configuration: its plain settings as they are, and its physical values,
/// which are all in range.
fn default_facts(name: &str, n: usize) -> ConfigFacts {
    let l = default_layout(name, n).unwrap();
    let s = default_settings(n);
    let mut f = runnable();
    f.n_qubits = n;
    f.hamiltonian_type = Some(name.to_string());
    f.omega_r_max = n;
    f.sigma_omega_r_max = vec![true; n];
    f.pulse_duration = vec![true; n];
    f.point_in_pulse = s.point_in_pulse;
    f.wf_type = s.wf_type;
    f.wf_mode = s.wf_mode;
    f.amplitude_envelope = s.amplitude_envelope;
    f.amplitude_order = s.amplitude_order;
    f.coverage = s.coverage;
    f.sw = vec![true; n];
    f.pulse_offset = n;
    f.pulse_bandwidth = vec![true; n];
    f.ratio_factor = vec![true; n];
    f.profile_order = s.profile_order;
    f.n_para = s.n_para;
    f.delta = Some(n);
    f.sigma_delta = Some(vec![true; n]);
    f.coupling_type = Some(s.coupling_type);
    f.anharmonicities = if l.anharmonic { Some(n) } else { None };
    f.initial_states = l.initial_states.clone();
    f.targets = match l.target {
        DefaultTarget::Axis(a) => TargetFacts::Axis(a),
        DefaultTarget::Gate(g) => TargetFacts::Gate(g),
    };
    f.h0_snapshots = s.h0_snapshots;
    f.omega_r_snapshots = s.omega_r_snapshots;
    f.algorithm = s.algorithm;
    f.max_iter = s.max_iter;
    f.compute_resource = Some(s.compute_resource);
    f
}

#[test]
fn default_configs_validate() {
    for name in model_names() {
        for n in [1, 2] {
            let f = default_facts(name, n);
            assert_eq!(validate(&f), Vec::<String>::new(), "{name} {n}");
            assert!(model_kind(Some(name), f.coupling_type.as_deref(), f.anharmonicities.is_some()).is_ok());
        }
    }
    assert!(default_layout("nope", 1).is_err());
}

#[test]
fn three_qubit_defaults_validate_where_their_gate_exists() {
    for name in model_names() {
        let f = default_facts(name, 3);
        assert_eq!(validate(&f), Vec::<String>::new(), "{name}");
    }
    let mut f = default_facts("spin_chain", 3);
    f.gate_names = vec!["Toffoli".into()];
    assert_eq!(validate(&f), vec!["gate \"CNOT\" is not one of Toffoli for 3 qubits".to_string()]);
}

#[test]
fn adding_a_state_keeps_a_valid_configuration_valid() {
    let mut f = runnable();
    let mut t: Targets<f64> = Targets::Gate(names(&["CNOT"]));
    add_initial_state(&mut f.initial_states, &mut t, 2, Some("CNOT"), 90.0);
    f.targets = match t {
        Targets::Gate(g) => TargetFacts::Gate(g),
        _ => unreachable!(),
    };
    assert_eq!(f.initial_states, vec![names(&["Z", "-Z"]), names(&["Z", "Z"])]);
    assert_eq!(validate(&f), Vec::<String>::new());
}
