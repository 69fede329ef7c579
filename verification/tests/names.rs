use ctrl_freeq::analysis::components;
use ctrl_freeq::config::{Coverage, Space, WaveformMode, complete};
use ctrl_freeq::edit::{
    TargetMethod, capitalise, coupling_types, default_axis, model_label, preset_label, resize, resize_opt, spaced,
};
use ctrl_freeq::error::Error;
use ctrl_freeq::hamiltonian::{Coupling, model_names};
use ctrl_freeq::platform::FilePicker;
use ctrl_freeq::text::decimal_string;

#[test]
fn error_messages_carry_their_kind() {
    assert_eq!(Error::Config("x".into()).to_string(), "invalid configuration: x");
    assert_eq!(Error::NotSupported("x".into()).to_string(), "not supported: x");
    assert_eq!(Error::Dimension("x".into()).to_string(), "dimension mismatch: x");
    assert_eq!(Error::Numerical("x".into()).to_string(), "numerical failure: x");
    assert_eq!(Error::Io("x".into()).to_string(), "io error: x");
}

#[test]
fn json_names_of_modes_and_coverages() {
    let modes: Vec<&str> = WaveformMode::ALL.iter().map(|m| m.name()).collect();
    assert_eq!(modes, vec!["cart", "polar", "polar_phase"]);
    let coverages: Vec<&str> = Coverage::ALL.iter().map(|c| c.name()).collect();
    assert_eq!(coverages, vec!["single", "broadband", "selective", "band_selective"]);
}

#[test]
fn complete_lists_have_every_entry() {
    assert_eq!(complete(Some(vec![Some(1), Some(2)])), Some(vec![1, 2]));
    assert_eq!(complete(Some(vec![Some(1), None])), None);
    assert_eq!(complete::<i32>(Some(vec![])), None);
    assert_eq!(complete::<i32>(None), None);
}

#[test]
fn coupling_forms_parse_ignoring_case() {
    assert_eq!(Coupling::parse("z"), Ok(Coupling::Z));
    assert_eq!(Coupling::parse("Xy"), Ok(Coupling::Xy));
    assert_eq!(Coupling::parse("XYZ"), Ok(Coupling::Xyz));
    assert_eq!(
        Coupling::parse("ZZ"),
        Err(Error::Config("coupling_type \"ZZ\" is not one of Z, XY, XYZ".to_string()))
    );
}

#[test]
fn models_are_listed_in_menu_order() {
    assert_eq!(model_names(), &["spin_chain", "superconducting", "duffing_transmon"]);
}

#[test]
fn state_components_and_labels() {
    let (idx, labels) = components(2, Space::Hilbert);
    assert_eq!(idx, vec![(0, 0), (1, 0)]);
    assert_eq!(labels, vec!["ψ1", "ψ2"]);
    let (idx, labels) = components(2, Space::Liouville);
    assert_eq!(idx, vec![(0, 0), (0, 1), (1, 0), (1, 1)]);
    assert_eq!(labels, vec!["ρ11", "ρ12", "ρ21", "ρ22"]);
    let (idx, labels) = components(9, Space::Liouville);
    assert_eq!(idx.len(), 9);
    assert_eq!(idx[8], (8, 8));
    assert_eq!(labels[0], "ρ11");
    assert_eq!(labels[8], "ρ99");
}

#[test]
fn interface_names() {
    assert_eq!(TargetMethod::Axis.label(), "State");
    assert_eq!(TargetMethod::Gate.label(), "Gate");
    assert_eq!(TargetMethod::Rotation.label(), "Rotation");
    assert_eq!(coupling_types(None), &["Z", "XY", "XYZ"]);
    assert_eq!(coupling_types(Some("spin_chain")), &["XY", "Z", "XYZ"]);
    assert_eq!(coupling_types(Some("superconducting")), &["XY", "ZZ", "XY+ZZ"]);
    assert_eq!(coupling_types(Some("duffing_transmon")), &["XY"]);
    assert_eq!(model_label(None), "Spin chain (original)");
    assert_eq!(model_label(Some("spin_chain")), "Spin chain");
    assert_eq!(model_label(Some("superconducting")), "Transmons, two levels");
    assert_eq!(model_label(Some("duffing_transmon")), "Transmons, three levels");
    assert_eq!(model_label(Some("other")), "Unknown");
}

#[test]
fn resizing_repeats_the_last_entry() {
    let mut v = vec![1, 2];
    resize(&mut v, 4, 9);
    assert_eq!(v, vec![1, 2, 2, 2]);
    resize(&mut v, 1, 9);
    assert_eq!(v, vec![1]);
    let mut e: Vec<String> = vec![];
    resize(&mut e, 2, "cheb".to_string());
    assert_eq!(e, vec!["cheb", "cheb"]);
    let mut o: Option<Vec<f64>> = None;
    resize_opt(&mut o, 3, 1.0);
    assert_eq!(o, None);
    let mut o = Some(vec![0.5]);
    resize_opt(&mut o, 3, 1.0);
    assert_eq!(o, Some(vec![0.5, 0.5, 0.5]));
    assert_eq!(default_axis(3), vec!["-Z", "-Z", "-Z"]);
}

#[test]
fn capitalising_uppercases_the_first_character() {
    assert_eq!(capitalise("converged"), "Converged");
    assert_eq!(capitalise(""), "");
    assert_eq!(capitalise("ß"), "SS");
    assert_eq!(capitalise("éa"), "Éa");
}

#[test]
fn a_chosen_file_is_taken_once() {
    let mut p = FilePicker::default();
    assert_eq!(p.take(), None);
    p.deliver(Ok("{}".to_string()));
    assert_eq!(p.take(), Some(Ok("{}".to_string())));
    assert_eq!(p.take(), None);
}

#[test]
fn decimals() {
    assert_eq!(decimal_string(0), "0");
    assert_eq!(decimal_string(7), "7");
    assert_eq!(decimal_string(1040), "1040");
    assert_eq!(decimal_string(usize::MAX), usize::MAX.to_string());
}

#[test]
fn menu_labels_space_out_names() {
    assert_eq!(spaced("single_qubit_parameters"), "single qubit parameters");
    assert_eq!(spaced(""), "");
    assert_eq!(preset_label("duffing_transmon", 1), "duffing transmon default, 1 qubit");
    assert_eq!(preset_label("spin_chain", 2), "spin chain default, 2 qubits");
}
