use ctrl_freeq::config::parameters::Parameters;
use ctrl_freeq::config::{ConfigFacts, Dissipation, TargetFacts, Targets, validate};
use ctrl_freeq::edit::{TargetMethod, add_initial_state, remove_initial_state, set_target_method};
use ctrl_freeq::hamiltonian::defaults::{DefaultTarget, Family, default_layout, default_settings};
use ctrl_freeq::hamiltonian::model_names;
use ctrl_freeq::model_edits::{set_dissipative, set_model};
use ctrl_freeq::qubit_count::{QubitFills, set_qubit_count};

/// A configuration as the interface edits it: what the checks read, with its physical values as numbers.
#[derive(Clone)]
struct Cfg {
    hamiltonian_type: Option<String>,
    qubits: Vec<String>,
    p: Parameters<f64>,
    initial_states: Vec<Vec<String>>,
    targets: Targets<f64>,
    dissipation: Option<Dissipation>,
    h0_snapshots: usize,
    omega_r_snapshots: usize,
    algorithm: String,
    max_iter: usize,
    compute_resource: String,
}

/// The gates defined for `n` qubits.
fn gates(n: usize) -> Vec<String> {
    let g: &[&str] = match n {
        1 => &["X", "Y", "Z", "H"],
        2 => &["CNOT", "CZ", "SWAP", "iSWAP"],
        3 => &["Toffoli"],
        _ => &[],
    };
    g.iter().map(|s| s.to_string()).collect()
}

/// The default configuration of a model, with the physical values an interface starts from.
fn preset(name: &str, n: usize) -> Cfg {
    let l = default_layout(name, n).unwrap();
    let s = default_settings(n);
    let (step, coupling) = match l.family {
        Family::SpinChain => (10e6, 16.67e6),
        Family::Transmon => (10e6, 1.047e7),
    };
    let mut j = vec![vec![0.0; n]; n];
    for i in 0..n - 1 {
        j[i][i + 1] = coupling;
    }
    let per = |v: f64| vec![v; n];
    Cfg {
        hamiltonian_type: Some(name.to_string()),
        qubits: l.qubits,
        p: Parameters {
            delta: Some((1..=n).map(|i| i as f64 * step).collect()),
            sigma_delta: Some(per(0.0)),
            omega_r_max: per(40e6),
            sigma_omega_r_max: per(0.0),
            pulse_duration: per(200e-9),
            point_in_pulse: s.point_in_pulse,
            wf_type: s.wf_type,
            wf_mode: s.wf_mode,
            amplitude_envelope: s.amplitude_envelope,
            amplitude_order: s.amplitude_order,
            coverage: s.coverage,
            sw: per(5e6),
            pulse_offset: per(0.0),
            pulse_bandwidth: per(5e5),
            ratio_factor: per(0.5),
            profile_order: s.profile_order,
            n_para: s.n_para,
            j: Some(j),
            coupling_type: Some(s.coupling_type),
            sigma_j: Some(0.0),
            t1: None,
            t2: None,
            anharmonicities: if l.anharmonic { Some(per(-330e6)) } else { None },
            zz_crosstalk: None,
            stark_shift_coeffs: None,
        },
        initial_states: l.initial_states,
        targets: match l.target {
            DefaultTarget::Axis(a) => Targets::Axis(a),
            DefaultTarget::Gate(g) => Targets::Gate(g),
        },
        dissipation: None,
        h0_snapshots: s.h0_snapshots,
        omega_r_snapshots: s.omega_r_snapshots,
        algorithm: s.algorithm,
        max_iter: s.max_iter,
        compute_resource: s.compute_resource,
    }
}

fn positive(x: f64) -> bool {
    x.is_finite() && x > 0.0
}

fn non_negative(x: f64) -> bool {
    x.is_finite() && x >= 0.0
}

/// What the checks read of `c`.
fn facts(c: &Cfg) -> ConfigFacts {
    let n = c.qubits.len();
    let p = &c.p;
    let coupling_problem = p.j.as_ref().and_then(|j| {
        if j.len() != n || j.iter().any(|r| r.len() != n) {
            return Some(format!("J must be a {n}x{n} matrix"));
        }
        for a in 0..n {
            for b in a + 1..n {
                if j[a][b] != 0.0 && j[b][a] != 0.0 && j[a][b] != j[b][a] {
                    return Some(format!("J is asymmetric at {a},{b}"));
                }
            }
        }
        None
    });
    ConfigFacts {
        n_qubits: n,
        hamiltonian_type: c.hamiltonian_type.clone(),
        omega_r_max: p.omega_r_max.len(),
        sigma_omega_r_max: p.sigma_omega_r_max.iter().map(|&x| non_negative(x)).collect(),
        pulse_duration: p.pulse_duration.iter().map(|&x| positive(x)).collect(),
        point_in_pulse: p.point_in_pulse.clone(),
        wf_type: p.wf_type.clone(),
        wf_mode: p.wf_mode.clone(),
        amplitude_envelope: p.amplitude_envelope.clone(),
        amplitude_order: p.amplitude_order.clone(),
        coverage: p.coverage.clone(),
        sw: p.sw.iter().map(|&x| !(x.is_nan() || x < 0.0)).collect(),
        pulse_offset: p.pulse_offset.len(),
        pulse_bandwidth: p.pulse_bandwidth.iter().map(|&x| !(x.is_nan() || x < 0.0)).collect(),
        ratio_factor: p.ratio_factor.iter().map(|x| (0.0..=1.0).contains(x)).collect(),
        profile_order: p.profile_order.clone(),
        n_para: p.n_para.clone(),
        delta: p.delta.as_ref().map(Vec::len),
        sigma_delta: p.sigma_delta.as_ref().map(|d| d.iter().map(|&x| non_negative(x)).collect()),
        coupling_problem,
        sigma_j: p.sigma_j.map(non_negative),
        coupling_type: p.coupling_type.clone(),
        anharmonicities: p.anharmonicities.as_ref().map(Vec::len),
        stark_shift_coeffs: p.stark_shift_coeffs.as_ref().map(Vec::len),
        zz_crosstalk: p.zz_crosstalk.as_ref().map(|m| m.iter().map(Vec::len).collect()),
        dissipative: c.dissipation == Some(Dissipation::Dissipative),
        t1: p.t1.as_ref().map(|t| t.iter().map(|&x| positive(x)).collect()),
        t2: p.t2.as_ref().map(|t2| {
            t2.iter()
                .enumerate()
                .map(|(q, &x)| {
                    let within = match p.t1.as_ref().and_then(|t1| t1.get(q)) {
                        Some(&a) => !(x > 2.0 * a),
                        None => true,
                    };
                    (positive(x), within)
                })
                .collect()
        }),
        initial_states: c.initial_states.clone(),
        targets: match &c.targets {
            Targets::Axis(a) => TargetFacts::Axis(a.clone()),
            Targets::Gate(g) => TargetFacts::Gate(g.clone()),
            Targets::PhiBeta { phi, beta } => TargetFacts::PhiBeta {
                phi: phi.clone(),
                beta: beta.iter().map(|b| b.len() == n && b.iter().all(|x| x.is_finite())).collect(),
            },
        },
        gate_names: gates(n),
        h0_snapshots: c.h0_snapshots,
        omega_r_snapshots: c.omega_r_snapshots,
        algorithm: c.algorithm.clone(),
        max_iter: c.max_iter,
        targ_fid: true,
        compute_resource: Some(c.compute_resource.clone()),
        cpu_cores: None,
    }
}

fn problems(c: &Cfg) -> Vec<String> {
    validate(&facts(c))
}

/// Change the number of qubits the way an interface does: new offsets 10 MHz apart, a new neighbour coupled
/// like the last pair or at 10 MHz.
fn change_qubit_count(c: &mut Cfg, n: usize) {
    let count = n.max(1);
    let start = c.qubits.len().max(1);
    let mut new_deltas = Vec::new();
    if let Some(d) = &c.p.delta {
        let mut last = d.last().copied().unwrap_or(0.0);
        for _ in d.len()..count {
            last += 10e6;
            new_deltas.push(last);
        }
    }
    let old_j = c.p.j.clone().unwrap_or_default();
    let mut new_couplings: Vec<f64> = Vec::new();
    for i in start..count {
        let last = if i < 2 {
            0.0
        } else if i - 1 >= start {
            new_couplings[i - 1 - start]
        } else {
            old_j.get(i - 2).and_then(|r| r.get(i - 1)).copied().unwrap_or(0.0)
        };
        new_couplings.push(if last != 0.0 { last } else { 10e6 });
    }
    let fills = QubitFills {
        sigma_delta: 0.0,
        omega_r_max: 40e6,
        sigma_omega_r_max: 0.0,
        pulse_duration: 2e-7,
        sw: 5e6,
        pulse_offset: 0.0,
        pulse_bandwidth: 5e5,
        ratio_factor: 0.5,
        t1: 1e-3,
        t2: 5e-4,
        anharmonicity: -330e6,
        stark: 0.0,
        zero: 0.0,
        sigma_j: 0.0,
        angle: 90.0,
    };
    let model = c.hamiltonian_type.clone();
    set_qubit_count(
        &mut c.p,
        &mut c.qubits,
        &mut c.initial_states,
        &mut c.targets,
        model.as_deref(),
        count,
        &gates(count),
        fills,
        new_deltas,
        new_couplings,
    );
}

#[test]
fn edits_keep_every_preset_valid() {
    for name in model_names() {
        for size in [1, 2] {
            let preset = preset(name, size);
            assert!(problems(&preset).is_empty(), "{name} {size}: {:?}", problems(&preset));
            for n in [1, 2, 3] {
                let mut c = preset.clone();
                change_qubit_count(&mut c, n);
                assert!(problems(&c).is_empty(), "{name} with {n} qubits: {:?}", problems(&c));
                for model in [None, Some("spin_chain"), Some("superconducting"), Some("duffing_transmon")] {
                    let mut m = c.clone();
                    set_model(&mut m.p, &mut m.hamiltonian_type, &mut m.dissipation, n, model, -330e6);
                    assert_eq!(m.hamiltonian_type.as_deref(), model);
                    assert!(problems(&m).is_empty(), "{name}, {n} qubits, {model:?}: {:?}", problems(&m));
                    if model != Some("superconducting") {
                        assert!(m.p.zz_crosstalk.is_none() && m.p.stark_shift_coeffs.is_none());
                    }
                    if model == Some("duffing_transmon") {
                        assert_eq!(m.p.anharmonicities.as_ref().map(Vec::len), Some(n));
                        assert_ne!(m.dissipation, Some(Dissipation::Dissipative));
                    }
                }
                for method in [TargetMethod::Axis, TargetMethod::Gate, TargetMethod::Rotation] {
                    let mut t = c.clone();
                    let k = t.initial_states.len();
                    let g = gates(n);
                    set_target_method(&mut t.targets, n, k, method, g.first().map(|s| s.as_str()), 90.0);
                    let before = t.targets.len();
                    add_initial_state(&mut t.initial_states, &mut t.targets, n, g.first().map(|s| s.as_str()), 90.0);
                    assert_eq!(t.initial_states.len(), k + 1);
                    assert_eq!(t.initial_states[k], vec!["Z".to_string(); n]);
                    assert_eq!(t.targets.len(), before + 1);
                    assert!(problems(&t).is_empty(), "{name}, {n} qubits, {method:?}: {:?}", problems(&t));
                    remove_initial_state(&mut t.initial_states, &mut t.targets, 0);
                    assert!(problems(&t).is_empty());
                }
                let mut d = c.clone();
                set_dissipative(&mut d.p, &mut d.dissipation, n, true, 1e-3, 5e-4);
                if d.hamiltonian_type.as_deref() != Some("duffing_transmon") {
                    assert!(problems(&d).is_empty(), "{name}, {n} qubits, dissipative: {:?}", problems(&d));
                }
            }
        }
    }
}
