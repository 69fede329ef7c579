use ctrl_freeq::platform::{Platform, can_remove_qubit, relaxation_allowed};
use ctrl_freeq::session::{RunMessage, Session, Status, editing_enabled, export_enabled, run_enabled};

type RunPanel = Session<u32, &'static str>;

#[test]
fn a_run_reports_progress_then_finishes() {
    let mut s = RunPanel::new();
    assert_eq!(s.status, Status::Idle);
    s.start();
    assert_eq!(s.status, Status::Running);
    let going = s.receive(vec![RunMessage::Ready, RunMessage::Progress(1), RunMessage::Progress(2)]);
    assert!(going);
    assert!(s.running);
    assert_eq!(s.history, vec![1, 2]);
    let going = s.receive(vec![RunMessage::Progress(3), RunMessage::Finished("pulse", "Converged: done.".into())]);
    assert!(!going);
    assert!(!s.running);
    assert_eq!(s.status, Status::Done);
    assert_eq!(s.history, vec![1, 2, 3]);
    assert_eq!(s.results, Some("pulse"));
    assert_eq!(s.message.as_deref(), Some("Converged: done."));
    s.start();
    assert!(s.history.is_empty());
    assert_eq!(s.results, None);
    assert_eq!(s.message, None);
}

#[test]
fn a_failed_run_says_why() {
    let mut s = RunPanel::new();
    s.start();
    assert!(!s.receive(vec![RunMessage::Progress(7), RunMessage::Failed("NaN in the gradient".into())]));
    assert_eq!(s.status, Status::Failed);
    assert_eq!(s.message.as_deref(), Some("The run failed: NaN in the gradient"));
    assert_eq!(s.history, vec![7]);
}

#[test]
fn cancelling_natively_waits_for_the_best_pulse() {
    let mut s = RunPanel::new();
    s.start();
    s.receive(vec![RunMessage::Progress(1)]);
    s.cancel(true);
    assert_eq!(s.status, Status::Running);
    assert!(s.running);
    assert!(!s.receive(vec![RunMessage::Finished("best", "Cancelled: fidelity 0.5.".into())]));
    assert_eq!(s.results, Some("best"));
    assert_eq!(s.status, Status::Done);
}

#[test]
fn cancelling_in_the_browser_keeps_only_the_convergence() {
    let mut s = RunPanel::new();
    s.start();
    s.receive(vec![RunMessage::Progress(1), RunMessage::Progress(2)]);
    s.cancel(false);
    assert!(!s.running);
    assert_eq!(s.status, Status::Done);
    assert_eq!(s.history, vec![1, 2]);
    assert_eq!(s.results, None);
    assert_eq!(
        s.message.as_deref(),
        Some("Cancelled. The convergence so far is kept; the partial pulse is not.")
    );
}

#[test]
fn loading_a_file_says_whether_it_worked() {
    let mut s = RunPanel::new();
    s.loaded(Ok(()));
    assert_eq!(s.message.as_deref(), Some("Configuration loaded."));
    s.loaded(Err("expected value at line 1 column 1".into()));
    assert_eq!(s.message.as_deref(), Some("Not loaded: expected value at line 1 column 1"));
    assert_eq!(s.status, Status::Idle);
}

#[test]
fn the_top_bar_enables_what_can_be_done() {
    assert!(run_enabled(false, 0));
    assert!(!run_enabled(false, 2));
    assert!(!run_enabled(true, 0));
    assert!(export_enabled(true));
    assert!(!export_enabled(false));
    assert!(!editing_enabled(true));
    let mut s = RunPanel::new();
    s.preset_loaded("spin chain default, 1 qubit");
    assert_eq!(s.message.as_deref(), Some("Loaded the preset \"spin chain default, 1 qubit\"."));
    s.offer_failed("the download was refused".into());
    assert_eq!(s.message.as_deref(), Some("the download was refused"));
}

#[test]
fn qubit_counts_and_relaxation_follow_the_platform_and_model() {
    let native = Platform { is_web: false, cores: 8 };
    let web = Platform { is_web: true, cores: 1 };
    assert_eq!(native.max_qubits(), 4);
    assert_eq!(web.max_qubits(), 3);
    assert!(native.can_add_qubit(3));
    assert!(!web.can_add_qubit(3));
    assert!(can_remove_qubit(2));
    assert!(!can_remove_qubit(1));
    assert!(relaxation_allowed(None));
    assert!(relaxation_allowed(Some("superconducting")));
    assert!(!relaxation_allowed(Some("duffing_transmon")));
}
