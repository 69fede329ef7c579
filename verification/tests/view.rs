use ctrl_freeq::config::Coverage;
use ctrl_freeq::view::{Panel, ResultsView, Tab, component_columns, component_rows, qubit_rows};

#[test]
fn tabs_other_than_convergence_wait_for_results() {
    let mut v = ResultsView::default();
    assert_eq!(v.panel(false), Panel::Convergence);
    v.tab = Tab::Dynamics;
    assert_eq!(v.panel(false), Panel::Waiting);
    assert_eq!(v.panel(true), Panel::Dynamics);
    assert!(ResultsView::enabled(Tab::Convergence, false));
    assert!(!ResultsView::enabled(Tab::Profile, false));
    assert!(ResultsView::enabled(Tab::Pulses, true));
}

#[test]
fn the_plotted_initial_state_stays_in_range() {
    let mut v = ResultsView::default();
    v.initial_state = 5;
    assert!(v.pick_initial_state(3));
    assert_eq!(v.initial_state, 2);
    assert!(!v.pick_initial_state(1));
    assert_eq!(v.initial_state, 0);
    assert!(!v.pick_initial_state(0));
    assert_eq!(v.initial_state, 0);
}

#[test]
fn state_components_are_laid_out_in_rows() {
    assert_eq!(component_columns(4), 1);
    assert_eq!(component_columns(16), 2);
    assert_eq!(component_rows(5, 2), vec![vec![0, 1], vec![2, 3], vec![4]]);
    assert_eq!(component_rows(4, 2), vec![vec![0, 1], vec![2, 3]]);
    assert_eq!(component_rows(3, 1), vec![vec![0], vec![1], vec![2]]);
    assert_eq!(component_rows(0, 2), Vec::<Vec<usize>>::new());
}


#[test]
fn the_qubit_grid_shows_what_the_configuration_uses() {
    let base = 12;
    assert_eq!(qubit_rows(&[Coverage::Broadband], None, false, false).len(), base);
    let rows = qubit_rows(&[Coverage::Single, Coverage::BandSelective], Some("superconducting"), true, true);
    assert_eq!(
        &rows[base..],
        &[
            "Band width",
            "Fraction outside band",
            "Profile order",
            "T1",
            "T2",
            "Anharmonicity",
            "AC Stark shift",
            "Stark coefficient"
        ]
    );
    let rows = qubit_rows(&[Coverage::Selective], Some("duffing_transmon"), false, true);
    assert_eq!(&rows[base..], &["Band width", "Fraction outside band", "Anharmonicity"]);
    assert_eq!(rows[0], "Offset Δ");
}
