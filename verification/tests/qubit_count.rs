use ctrl_freeq::config::parameters::Parameters;
use ctrl_freeq::config::{Coverage, Dissipation, Targets, WaveformMode};
use ctrl_freeq::linalg::Mat;
use ctrl_freeq::model_edits::{set_dissipative, set_model};
use ctrl_freeq::qubit_count::{QubitFills, set_qubit_count};

fn names(v: &[&str]) -> Vec<String> {
    v.iter().map(|s| s.to_string()).collect()
}

fn one_qubit() -> Parameters<f64> {
    Parameters {
        delta: Some(vec![5e6]),
        sigma_delta: None,
        omega_r_max: vec![20e6],
        sigma_omega_r_max: vec![1e6],
        pulse_duration: vec![1e-7],
        point_in_pulse: vec![50],
        wf_type: names(&["leg"]),
        wf_mode: vec![WaveformMode::Polar],
        amplitude_envelope: names(&["hs"]),
        amplitude_order: vec![3],
        coverage: vec![Coverage::Single],
        sw: vec![1e6],
        pulse_offset: vec![0.0],
        pulse_bandwidth: vec![2e5],
        ratio_factor: vec![0.25],
        profile_order: vec![4],
        n_para: vec![8],
        j: None,
        coupling_type: None,
        sigma_j: None,
        t1: None,
        t2: Some(vec![7e-4]),
        anharmonicities: None,
        zz_crosstalk: None,
        stark_shift_coeffs: None,
    }
}

fn axes(t: &Targets<f64>) -> Option<Vec<Vec<String>>> {
    match t {
        Targets::Axis(a) => Some(a.clone()),
        _ => None,
    }
}

fn fills() -> QubitFills<f64> {
    QubitFills {
        sigma_delta: 0.0,
        omega_r_max: 40e6,
        sigma_omega_r_max: 0.0,
        pulse_duration: 2e-7,
        sw: 5e6,
        pulse_offset: 0.0,
        pulse_bandwidth: 5e5,
        ratio_factor: 0.5,
        t1: 1e-3,
        t2: 5e-4,
        anharmonicity: -330e6,
        stark: 0.0,
        zero: 0.0,
        sigma_j: 0.0,
        angle: 90.0,
    }
}

#[test]
fn growing_copies_the_last_qubit_and_extends_the_couplings() {
    let mut p = one_qubit();
    let mut qubits = names(&["q1"]);
    let mut states = vec![names(&["Z"]), names(&["X"])];
    let mut targets: Targets<f64> = Targets::Axis(vec![names(&["-Z"]), names(&["Y"])]);
    set_qubit_count(
        &mut p,
        &mut qubits,
        &mut states,
        &mut targets,
        None,
        3,
        &names(&["CNOT"]),
        fills(),
        vec![15e6, 25e6],
        vec![10e6, 10e6],
    );
    assert_eq!(qubits, names(&["q1", "q2", "q3"]));
    assert_eq!(p.delta, Some(vec![5e6, 15e6, 25e6]));
    assert_eq!(p.omega_r_max, vec![20e6; 3]);
    assert_eq!(p.point_in_pulse, vec![50; 3]);
    assert_eq!(p.wf_type, names(&["leg", "leg", "leg"]));
    assert_eq!(p.wf_mode, vec![WaveformMode::Polar; 3]);
    assert_eq!(p.n_para, vec![8; 3]);
    assert_eq!(p.t1, None);
    assert_eq!(p.t2, Some(vec![7e-4; 3]));
    assert_eq!(p.j, Some(vec![vec![0.0, 10e6, 0.0], vec![0.0, 0.0, 10e6], vec![0.0; 3]]));
    assert_eq!(p.coupling_type, Some("Z".to_string()));
    assert_eq!(p.sigma_j, Some(0.0));
    assert_eq!(states, vec![names(&["Z", "Z", "Z"]), names(&["X", "Z", "Z"])]);
    assert_eq!(axes(&targets), Some(vec![names(&["-Z", "-Z", "-Z"]), names(&["Y", "-Z", "-Z"])]));
}

#[test]
fn shrinking_cuts_every_list_and_keeps_the_couplings_square() {
    let mut p = one_qubit();
    let mut qubits = names(&["q1"]);
    let mut states = vec![names(&["Z"])];
    let mut targets: Targets<f64> = Targets::Gate(names(&["X"]));
    set_qubit_count(
        &mut p,
        &mut qubits,
        &mut states,
        &mut targets,
        Some("superconducting"),
        2,
        &names(&["CNOT", "CZ"]),
        fills(),
        vec![15e6],
        vec![3e6],
    );
    assert_eq!(p.coupling_type, Some("XY".to_string()));
    assert!(matches!(&targets, Targets::Gate(g) if *g == names(&["CNOT"])));
    assert_eq!(p.j, Some(vec![vec![0.0, 3e6], vec![0.0, 0.0]]));
    set_qubit_count(
        &mut p,
        &mut qubits,
        &mut states,
        &mut targets,
        Some("superconducting"),
        0,
        &Vec::new(),
        fills(),
        Vec::new(),
        Vec::new(),
    );
    assert_eq!(qubits, names(&["q1"]));
    assert_eq!(p.delta, Some(vec![5e6]));
    assert_eq!(p.sw, vec![1e6]);
    assert_eq!(p.j, Some(vec![vec![0.0]]));
    assert_eq!(states, vec![names(&["Z"])]);
    // No gate is defined for one qubit here: every state aims along -Z.
    assert_eq!(axes(&targets), Some(vec![names(&["-Z"])]));
}

#[test]
fn empty_lists_take_the_fills() {
    let mut p = one_qubit();
    p.omega_r_max = Vec::new();
    p.coverage = Vec::new();
    p.wf_type = Vec::new();
    let mut qubits = Vec::new();
    let mut states = Vec::new();
    let mut targets: Targets<f64> = Targets::PhiBeta { phi: vec![names(&["y"])], beta: vec![vec![45.0]] };
    set_qubit_count(&mut p, &mut qubits, &mut states, &mut targets, None, 2, &Vec::new(), fills(), vec![15e6], vec![10e6]);
    assert_eq!(p.omega_r_max, vec![40e6, 40e6]);
    assert_eq!(p.coverage, vec![Coverage::Single; 2]);
    assert_eq!(p.wf_type, names(&["cheb", "cheb"]));
    assert!(matches!(&targets, Targets::PhiBeta { phi, beta }
        if *phi == vec![names(&["y", "x"])] && *beta == vec![vec![45.0, 90.0]]));
}

#[test]
fn switching_to_the_three_level_model() {
    let mut p = one_qubit();
    p.coupling_type = Some("Z".to_string());
    p.zz_crosstalk = Some(vec![vec![0.0; 2]; 2]);
    let mut h = None;
    let mut d = Some(Dissipation::Dissipative);
    set_model(&mut p, &mut h, &mut d, 2, Some("duffing_transmon"), -330e6);
    assert_eq!(h, Some("duffing_transmon".to_string()));
    assert_eq!(p.coupling_type, Some("XY".to_string()));
    assert_eq!(p.anharmonicities, Some(vec![-330e6; 2]));
    assert_eq!(d, Some(Dissipation::NonDissipative));
    assert_eq!(p.zz_crosstalk, None);
    set_model(&mut p, &mut h, &mut d, 2, None, -330e6);
    assert_eq!(h, None);
    // The spin-chain path accepts XY too.
    assert_eq!(p.coupling_type, Some("XY".to_string()));
    assert_eq!(p.anharmonicities, None);
}

#[test]
fn a_single_qubit_keeps_its_coupling_type() {
    let mut p = one_qubit();
    p.coupling_type = Some("XYZ".to_string());
    p.stark_shift_coeffs = Some(vec![0.1]);
    let mut h = None;
    let mut d = None;
    set_model(&mut p, &mut h, &mut d, 1, Some("superconducting"), -330e6);
    assert_eq!(p.coupling_type, Some("XYZ".to_string()));
    assert_eq!(p.stark_shift_coeffs, Some(vec![0.1]));
    assert_eq!(d, None);
}

#[test]
fn relaxation_fills_missing_times() {
    let mut p = one_qubit();
    let mut d = None;
    set_dissipative(&mut p, &mut d, 1, true, 1e-3, 5e-4);
    assert_eq!(d, Some(Dissipation::Dissipative));
    assert_eq!(p.t1, Some(vec![1e-3]));
    assert_eq!(p.t2, Some(vec![7e-4]));
    set_dissipative(&mut p, &mut d, 2, true, 1e-3, 5e-4);
    assert_eq!(p.t2, Some(vec![5e-4, 5e-4]));
    set_dissipative(&mut p, &mut d, 2, false, 2e-3, 2e-4);
    assert_eq!(d, Some(Dissipation::NonDissipative));
    assert_eq!(p.t1, Some(vec![1e-3, 1e-3]));
}

#[test]
fn filled_matrices_hold_one_value() {
    let m = Mat::filled(2, 3, 1.5);
    assert_eq!(m.shape(), (2, 3));
    assert_eq!(m.get(1, 2), 1.5);
    assert_eq!(m.get(0, 0), 1.5);
    let e: Mat<f64> = Mat::filled(0, 4, 0.0);
    assert_eq!(e.shape(), (0, 4));
}
