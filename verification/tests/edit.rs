use ctrl_freeq::config::Targets;
use ctrl_freeq::edit::{
    TargetMethod, add_initial_state, fix_gates, pad_names, pad_row, pad_rows, remove_initial_state, repeat_name,
    repeat_value, resize, resize_matrix, set_target_method,
};
use ctrl_freeq::error::Error;
use ctrl_freeq::hamiltonian::defaults::{DefaultTarget, Family, default_layout, qubit_names};
use ctrl_freeq::hamiltonian::{Coupling, ModelKind, model_kind};

fn names(v: &[&str]) -> Vec<String> {
    v.iter().map(|s| s.to_string()).collect()
}

#[test]
fn resizing_to_the_same_length_changes_nothing() {
    let mut v = vec![1.5, 2.5, 3.5];
    resize(&mut v, 3, 0.0);
    assert_eq!(v, vec![1.5, 2.5, 3.5]);
    resize(&mut v, 1, 0.0);
    assert_eq!(v, vec![1.5]);
}

#[test]
fn rows_are_cut_or_padded() {
    let mut r = vec![1, 2, 3];
    pad_row(&mut r, 5, 0);
    assert_eq!(r, vec![1, 2, 3, 0, 0]);
    pad_row(&mut r, 2, 9);
    assert_eq!(r, vec![1, 2]);
    let mut rows = vec![vec![1.0], vec![], vec![2.0, 3.0, 4.0]];
    pad_rows(&mut rows, 2, 90.0);
    assert_eq!(rows, vec![vec![1.0, 90.0], vec![90.0, 90.0], vec![2.0, 3.0]]);
}

#[test]
fn coupling_matrices_stay_square() {
    let mut j = vec![vec![0.0, 5.0]];
    resize_matrix(&mut j, 3, 0.0);
    assert_eq!(j, vec![vec![0.0, 5.0, 0.0], vec![0.0; 3], vec![0.0; 3]]);
    resize_matrix(&mut j, 1, 0.0);
    assert_eq!(j, vec![vec![0.0]]);
    let mut states = vec![names(&["Z"]), names(&["X", "Y", "-Z"])];
    pad_names(&mut states, 2, "Z");
    assert_eq!(states, vec![names(&["Z", "Z"]), names(&["X", "Y"])]);
}

#[test]
fn gates_fall_back_when_none_exist_for_the_qubit_count() {
    let mut gates = names(&["CNOT", "Toffoli"]);
    assert!(!fix_gates(&mut gates, &vec![]));
    assert_eq!(gates, names(&["CNOT", "Toffoli"]));
    assert!(fix_gates(&mut gates, &names(&["Toffoli", "CCZ"])));
    assert_eq!(gates, names(&["Toffoli", "Toffoli"]));
}

#[test]
fn target_methods_give_a_target_per_initial_state() {
    let mut t: Targets<f64> = Targets::Gate(names(&["CNOT"]));
    set_target_method(&mut t, 2, 3, TargetMethod::Axis, None, 90.0);
    assert!(matches!(&t, Targets::Axis(a) if *a == vec![names(&["-Z", "-Z"]); 3]));
    set_target_method(&mut t, 2, 3, TargetMethod::Gate, None, 90.0);
    assert!(matches!(t, Targets::Axis(_)));
    set_target_method(&mut t, 2, 3, TargetMethod::Gate, Some("CZ"), 90.0);
    assert!(matches!(&t, Targets::Gate(g) if *g == names(&["CZ", "CZ", "CZ"])));
    set_target_method(&mut t, 2, 1, TargetMethod::Rotation, None, 90.0);
    match &t {
        Targets::PhiBeta { phi, beta } => {
            assert_eq!(*phi, vec![names(&["x", "x"])]);
            assert_eq!(*beta, vec![vec![90.0, 90.0]]);
        }
        other => panic!("{other:?}"),
    }
    assert_eq!(TargetMethod::of(&t), TargetMethod::Rotation);
}

#[test]
fn adding_and_removing_initial_states_keeps_targets_matched() {
    let mut states = vec![names(&["Z", "-Z"])];
    let mut t: Targets<f64> = Targets::PhiBeta { phi: vec![names(&["y", "x"])], beta: vec![vec![45.0, 90.0]] };
    add_initial_state(&mut states, &mut t, 2, None, 90.0);
    assert_eq!(states, vec![names(&["Z", "-Z"]), names(&["Z", "Z"])]);
    match &t {
        Targets::PhiBeta { phi, beta } => {
            assert_eq!(*phi, vec![names(&["y", "x"]); 2]);
            assert_eq!(*beta, vec![vec![45.0, 90.0]; 2]);
        }
        other => panic!("{other:?}"),
    }
    remove_initial_state(&mut states, &mut t, 0);
    assert_eq!(states.len(), 1);
    assert_eq!(t.len(), 1);
    remove_initial_state(&mut states, &mut t, 0);
    assert_eq!(states.len(), 1, "the last initial state stays");
    let mut g: Targets<f64> = Targets::Gate(vec![]);
    let mut s = vec![];
    add_initial_state(&mut s, &mut g, 3, Some("Toffoli"), 90.0);
    assert!(matches!(&g, Targets::Gate(v) if *v == names(&["Toffoli"])));
    let mut a: Targets<f64> = Targets::Axis(vec![]);
    add_initial_state(&mut s, &mut a, 1, None, 90.0);
    assert!(matches!(&a, Targets::Axis(v) if *v == vec![names(&["-Z"])]));
    assert_eq!(repeat_name("x", 2), names(&["x", "x"]));
    assert_eq!(repeat_value(0u8, 3), vec![0, 0, 0]);
}

#[test]
fn default_layouts() {
    let l = default_layout("spin_chain", 3).unwrap();
    assert_eq!(l.family, Family::SpinChain);
    assert!(!l.anharmonic);
    assert_eq!(l.qubits, names(&["q1", "q2", "q3"]));
    assert_eq!(l.initial_states, vec![names(&["Z", "-Z", "-Z"])]);
    assert!(matches!(&l.target, DefaultTarget::Gate(g) if *g == names(&["CNOT"])));
    let l = default_layout("duffing_transmon", 2).unwrap();
    assert_eq!(l.family, Family::Transmon);
    assert!(l.anharmonic);
    assert_eq!(l.initial_states, vec![names(&["-Z", "Z"])]);
    assert!(matches!(&l.target, DefaultTarget::Gate(g) if *g == names(&["iSWAP"])));
    let l = default_layout("superconducting", 1).unwrap();
    assert_eq!(l.initial_states, vec![names(&["Z"])]);
    assert!(matches!(&l.target, DefaultTarget::Axis(a) if *a == vec![names(&["-Z"])]));
    assert_eq!(
        default_layout("spin_chain", 0).unwrap_err(),
        Error::Config("at least one qubit is needed".into())
    );
    assert_eq!(
        default_layout("nope", 2).unwrap_err(),
        Error::Config(
            "unknown hamiltonian_type \"nope\"; choose one of spin_chain, superconducting, duffing_transmon".into()
        )
    );
    assert_eq!(qubit_names(12)[11], "q12");
}

#[test]
fn the_legacy_path_defaults_to_z_coupling() {
    assert!(matches!(model_kind(None, None, false), Ok(ModelKind::SpinChain(Coupling::Z))));
    assert!(matches!(model_kind(Some("spin_chain"), None, false), Ok(ModelKind::SpinChain(Coupling::Xy))));
    assert!(matches!(model_kind(None, Some("xyz"), false), Ok(ModelKind::SpinChain(Coupling::Xyz))));
}

#[test]
fn each_model_takes_its_own_settings() {
    assert!(matches!(model_kind(Some("superconducting"), None, false), Ok(ModelKind::Superconducting(c)) if c == "XY"));
    assert!(matches!(
        model_kind(Some("superconducting"), Some("ZZ"), false),
        Ok(ModelKind::Superconducting(c)) if c == "ZZ"
    ));
    assert!(matches!(model_kind(Some("duffing_transmon"), None, true), Ok(ModelKind::DuffingTransmon)));
    assert_eq!(
        model_kind(Some("duffing_transmon"), None, false).unwrap_err(),
        Error::Config("the duffing_transmon model needs anharmonicities".into())
    );
    assert_eq!(
        model_kind(Some("spin_chain"), Some("ZZ"), false).unwrap_err(),
        Error::Config("coupling_type \"ZZ\" is not one of Z, XY, XYZ".into())
    );
    assert_eq!(
        model_kind(Some("ion_trap"), None, false).unwrap_err(),
        Error::Config(
            "unknown hamiltonian_type \"ion_trap\"; choose one of spin_chain, superconducting, duffing_transmon"
                .into()
        )
    );
}
