use ctrl_freeq::error::Error;
use ctrl_freeq::optim::{
    Algorithm, Bobyqa, CmaEs, Cobyla, ConsoleSink, Derivatives, Exit, LBfgs, NelderMead, NewtonCg, NewtonExact,
    Spsa, check_stop, failure_outcome, finish_outcome, optimizer, optimizer_names,
};

#[test]
fn every_listed_optimiser_is_available_under_its_name() {
    for name in optimizer_names() {
        assert_eq!(optimizer(name).unwrap().name(), *name);
    }
    assert_eq!(optimizer_names().len(), 8);
}

#[test]
fn unknown_optimisers_are_not_supported() {
    match optimizer("adam") {
        Err(Error::NotSupported(m)) => assert_eq!(
            m,
            "algorithm \"adam\" is not available; choose one of l-bfgs, newton-cg, newton-exact, cobyla, bobyqa, nelder-mead, spsa, cma-es"
        ),
        other => panic!("{other:?}"),
    }
}

#[test]
fn optimisers_ask_for_what_they_need() {
    assert_eq!(LBfgs.derivatives(), Derivatives::Gradient);
    assert_eq!(NewtonCg.derivatives(), Derivatives::Hessian);
    assert_eq!(NewtonExact.derivatives(), Derivatives::Hessian);
    for d in [
        Cobyla.derivatives(),
        Bobyqa.derivatives(),
        NelderMead.derivatives(),
        Spsa.derivatives(),
        CmaEs.derivatives(),
    ] {
        assert_eq!(d, Derivatives::ValuesOnly);
    }
    assert_eq!(CmaEs.name(), "cma-es");
    assert!(matches!(optimizer("spsa"), Ok(Algorithm::Spsa(_))));
    assert_eq!(optimizer("newton-exact").unwrap().derivatives(), Derivatives::Hessian);
}

#[test]
fn exit_messages() {
    assert_eq!(Exit::TargetReached.message(), "target fidelity reached");
    assert_eq!(Exit::Converged.message(), "converged");
    assert_eq!(Exit::MaxIterations.message(), "iteration limit reached");
    assert_eq!(Exit::Cancelled.message(), "cancelled");
    assert_eq!(Exit::Failed("nan".into()).message(), "stopped: nan");
}

#[test]
fn the_console_prints_its_header_once_and_every_nth_row() {
    let mut c = ConsoleSink::new(0);
    assert_eq!(c.every, 1);
    assert_eq!(c.due(0), (true, true));
    assert_eq!(c.due(1), (false, true));
    let mut c = ConsoleSink::new(5);
    assert_eq!(c.due(3), (true, false));
    assert_eq!(c.due(10), (false, true));
    c.every = 0;
    assert_eq!(c.due(0), (false, true));
    assert_eq!(c.due(7), (false, false));
}

#[test]
fn the_first_stop_condition_stands() {
    let mut exit = None;
    check_stop(&mut exit, false, false, 3, 10);
    assert_eq!(exit, None);
    check_stop(&mut exit, false, true, 3, 10);
    assert_eq!(exit, Some(Exit::Cancelled));
    check_stop(&mut exit, true, false, 30, 10);
    assert_eq!(exit, Some(Exit::Cancelled));
    let mut exit = None;
    check_stop(&mut exit, true, true, 30, 10);
    assert_eq!(exit, Some(Exit::TargetReached));
    let mut exit = None;
    check_stop(&mut exit, false, false, 10, 10);
    assert_eq!(exit, Some(Exit::MaxIterations));
}

#[test]
fn a_run_returns_its_best_point_or_why_it_has_none() {
    assert_eq!(finish_outcome(Some(3), None, Exit::Converged), Ok((3, Exit::Converged)));
    assert_eq!(
        finish_outcome(Some(3), Some(Exit::TargetReached), Exit::Converged),
        Ok((3, Exit::TargetReached))
    );
    assert_eq!(
        finish_outcome::<i32>(None, None, Exit::Failed("boom".into())),
        Err(Error::Numerical("boom".into()))
    );
    assert_eq!(
        finish_outcome::<i32>(None, Some(Exit::Cancelled), Exit::Converged),
        Err(Error::Numerical("the optimiser stopped (cancelled) before any evaluation".into()))
    );
}

#[test]
fn a_cancelled_run_keeps_its_best_point() {
    let mut exit = None;
    check_stop(&mut exit, false, true, 2, 100);
    assert_eq!(exit, Some(Exit::Cancelled));
    check_stop(&mut exit, true, false, 3, 100);
    assert_eq!(finish_outcome(Some(vec![0.5, -0.25]), exit, Exit::Converged), Ok((vec![0.5, -0.25], Exit::Cancelled)));
}

#[test]
fn failures_keep_the_best_point_too() {
    assert_eq!(
        finish_outcome(Some(1.5), None, Exit::Failed("singular".into())),
        Ok((1.5, Exit::Failed("singular".into())))
    );
}

#[test]
fn an_objective_failure_keeps_the_best_point_reached() {
    let e = Error::Numerical("NaN cost".into());
    assert_eq!(
        failure_outcome(Some(2), None, e.clone()),
        Ok((2, Exit::Failed("numerical failure: NaN cost".into())))
    );
    assert_eq!(failure_outcome(Some(2), Some(Exit::TargetReached), e.clone()), Ok((2, Exit::TargetReached)));
    assert_eq!(failure_outcome::<i32>(None, None, e.clone()), Err(e));
}
