//! Optimisation bookkeeping: the optimiser registry, why a run ends, when it has to stop, and what it hands back.
//!
//! The algorithms themselves work on floating-point objectives; what every one of them shares - the names, the
//! stop rule, the choice of result - is here.

use vstd::prelude::*;

use crate::error::{Error, Result};
use crate::text::{join, join_strs, str_eq, strs};

verus! {

/// What an optimiser asks the objective for.
#[derive(Clone, Copy, Debug, PartialEq, Eq, Structural)]
pub enum Derivatives {
    /// Values only.
    ValuesOnly,
    /// Values and gradients.
    Gradient,
    /// Values, gradients and Hessians.
    Hessian,
}

/// Why an optimisation ended.
#[derive(Clone, Debug, PartialEq)]
pub enum Exit {
    /// Fidelity minus penalty reached the target.
    TargetReached,
    /// The optimiser met its own convergence test.
    Converged,
    /// The iteration limit was reached.
    MaxIterations,
    /// The progress sink asked to stop.
    Cancelled,
    /// The optimiser or the objective failed; the best point so far is kept.
    Failed(String),
}

impl Exit {
    /// A short sentence for display.
    pub open spec fn spec_message(self) -> Seq<char> {
        match self {
            Exit::TargetReached => "target fidelity reached"@,
            Exit::Converged => "converged"@,
            Exit::MaxIterations => "iteration limit reached"@,
            Exit::Cancelled => "cancelled"@,
            Exit::Failed(m) => "stopped: "@ + m@,
        }
    }

    /// A short sentence for display.
    pub fn message(&self) -> (s: String)
        ensures
            s@ == self.spec_message(),
    {
        match self {
            Exit::TargetReached => String::from_str("target fidelity reached"),
            Exit::Converged => String::from_str("converged"),
            Exit::MaxIterations => String::from_str("iteration limit reached"),
            Exit::Cancelled => String::from_str("cancelled"),
            Exit::Failed(m) => {
                let mut s = String::from_str("stopped: ");
                s.append(m.as_str());
                s
            },
        }
    }
}

/// Every optimiser name, in the order the interface lists them.
pub open spec fn spec_optimizer_names() -> Seq<Seq<char>> {
    seq![
        "l-bfgs"@,
        "newton-cg"@,
        "newton-exact"@,
        "cobyla"@,
        "bobyqa"@,
        "nelder-mead"@,
        "spsa"@,
        "cma-es"@,
    ]
}

/// Every optimiser name, in the order the interface lists them.
pub fn optimizer_names() -> (names: &'static [&'static str])
    ensures
        strs(names@) == spec_optimizer_names(),
{
    let names: &'static [&'static str] = &[
        "l-bfgs",
        "newton-cg",
        "newton-exact",
        "cobyla",
        "bobyqa",
        "nelder-mead",
        "spsa",
        "cma-es",
    ];
    assert(strs(names@) =~= spec_optimizer_names());
    names
}

/// Limited-memory BFGS with a Moré–Thuente line search.
#[derive(Clone, Copy, Debug, Default)]
pub struct LBfgs;

/// Line-search Newton-CG with exact Hessian-vector products.
#[derive(Clone, Copy, Debug, Default)]
pub struct NewtonCg;

/// Newton's method in a trust region on the exact Hessian.
#[derive(Clone, Copy, Debug, Default)]
pub struct NewtonExact;

/// COBYLA, Powell's linear-approximation trust-region method.
#[derive(Clone, Copy, Debug, Default)]
pub struct Cobyla;

/// BOBYQA, Powell's bound-constrained quadratic-model trust-region method.
#[derive(Clone, Copy, Debug, Default)]
pub struct Bobyqa;

/// Nelder-Mead simplex search.
#[derive(Clone, Copy, Debug, Default)]
pub struct NelderMead;

/// Simultaneous perturbation stochastic approximation.
#[derive(Clone, Copy, Debug, Default)]
pub struct Spsa;

/// The covariance matrix adaptation evolution strategy.
#[derive(Clone, Copy, Debug, Default)]
pub struct CmaEs;

impl LBfgs {
    /// The name the configuration uses.
    pub fn name(&self) -> (s: &'static str)
        ensures
            s@ == "l-bfgs"@,
    {
        "l-bfgs"
    }

    /// What it needs from the objective.
    pub fn derivatives(&self) -> (d: Derivatives)
        ensures
            d == Derivatives::Gradient,
    {
        Derivatives::Gradient
    }
}

impl NewtonCg {
    /// The name the configuration uses.
    pub fn name(&self) -> (s: &'static str)
        ensures
            s@ == "newton-cg"@,
    {
        "newton-cg"
    }

    /// What it needs from the objective.
    pub fn derivatives(&self) -> (d: Derivatives)
        ensures
            d == Derivatives::Hessian,
    {
        Derivatives::Hessian
    }
}

impl NewtonExact {
    /// The name the configuration uses.
    pub fn name(&self) -> (s: &'static str)
        ensures
            s@ == "newton-exact"@,
    {
        "newton-exact"
    }

    /// What it needs from the objective.
    pub fn derivatives(&self) -> (d: Derivatives)
        ensures
            d == Derivatives::Hessian,
    {
        Derivatives::Hessian
    }
}

impl Cobyla {
    /// The name the configuration uses.
    pub fn name(&self) -> (s: &'static str)
        ensures
            s@ == "cobyla"@,
    {
        "cobyla"
    }

    /// What it needs from the objective.
    pub fn derivatives(&self) -> (d: Derivatives)
        ensures
            d == Derivatives::ValuesOnly,
    {
        Derivatives::ValuesOnly
    }
}

impl Bobyqa {
    /// The name the configuration uses.
    pub fn name(&self) -> (s: &'static str)
        ensures
            s@ == "bobyqa"@,
    {
        "bobyqa"
    }

    /// What it needs from the objective.
    pub fn derivatives(&self) -> (d: Derivatives)
        ensures
            d == Derivatives::ValuesOnly,
    {
        Derivatives::ValuesOnly
    }
}

impl NelderMead {
    /// The name the configuration uses.
    pub fn name(&self) -> (s: &'static str)
        ensures
            s@ == "nelder-mead"@,
    {
        "nelder-mead"
    }

    /// What it needs from the objective.
    pub fn derivatives(&self) -> (d: Derivatives)
        ensures
            d == Derivatives::ValuesOnly,
    {
        Derivatives::ValuesOnly
    }
}

impl Spsa {
    /// The name the configuration uses.
    pub fn name(&self) -> (s: &'static str)
        ensures
            s@ == "spsa"@,
    {
        "spsa"
    }

    /// What it needs from the objective.
    pub fn derivatives(&self) -> (d: Derivatives)
        ensures
            d == Derivatives::ValuesOnly,
    {
        Derivatives::ValuesOnly
    }
}

impl CmaEs {
    /// The name the configuration uses.
    pub fn name(&self) -> (s: &'static str)
        ensures
            s@ == "cma-es"@,
    {
        "cma-es"
    }

    /// What it needs from the objective.
    pub fn derivatives(&self) -> (d: Derivatives)
        ensures
            d == Derivatives::ValuesOnly,
    {
        Derivatives::ValuesOnly
    }
}

/// One of the optimisation algorithms.
#[derive(Clone, Copy, Debug)]
pub enum Algorithm {
    /// L-BFGS.
    LBfgs(LBfgs),
    /// Newton-CG.
    NewtonCg(NewtonCg),
    /// Trust-region Newton.
    NewtonExact(NewtonExact),
    /// COBYLA.
    Cobyla(Cobyla),
    /// BOBYQA.
    Bobyqa(Bobyqa),
    /// Nelder-Mead.
    NelderMead(NelderMead),
    /// SPSA.
    Spsa(Spsa),
    /// CMA-ES.
    CmaEs(CmaEs),
}

impl Algorithm {
    /// The name the configuration uses.
    pub open spec fn spec_name(self) -> Seq<char> {
        match self {
            Algorithm::LBfgs(_) => "l-bfgs"@,
            Algorithm::NewtonCg(_) => "newton-cg"@,
            Algorithm::NewtonExact(_) => "newton-exact"@,
            Algorithm::Cobyla(_) => "cobyla"@,
            Algorithm::Bobyqa(_) => "bobyqa"@,
            Algorithm::NelderMead(_) => "nelder-mead"@,
            Algorithm::Spsa(_) => "spsa"@,
            Algorithm::CmaEs(_) => "cma-es"@,
        }
    }

    /// What it needs from the objective.
    pub open spec fn spec_derivatives(self) -> Derivatives {
        match self {
            Algorithm::LBfgs(_) => Derivatives::Gradient,
            Algorithm::NewtonCg(_) | Algorithm::NewtonExact(_) => Derivatives::Hessian,
            _ => Derivatives::ValuesOnly,
        }
    }

    /// The name the configuration uses.
    pub fn name(&self) -> (s: &'static str)
        ensures
            s@ == self.spec_name(),
    {
        match self {
            Algorithm::LBfgs(o) => o.name(),
            Algorithm::NewtonCg(o) => o.name(),
            Algorithm::NewtonExact(o) => o.name(),
            Algorithm::Cobyla(o) => o.name(),
            Algorithm::Bobyqa(o) => o.name(),
            Algorithm::NelderMead(o) => o.name(),
            Algorithm::Spsa(o) => o.name(),
            Algorithm::CmaEs(o) => o.name(),
        }
    }

    /// What it needs from the objective.
    pub fn derivatives(&self) -> (d: Derivatives)
        ensures
            d == self.spec_derivatives(),
    {
        match self {
            Algorithm::LBfgs(o) => o.derivatives(),
            Algorithm::NewtonCg(o) => o.derivatives(),
            Algorithm::NewtonExact(o) => o.derivatives(),
            Algorithm::Cobyla(o) => o.derivatives(),
            Algorithm::Bobyqa(o) => o.derivatives(),
            Algorithm::NelderMead(o) => o.derivatives(),
            Algorithm::Spsa(o) => o.derivatives(),
            Algorithm::CmaEs(o) => o.derivatives(),
        }
    }
}

/// The error text for an algorithm name that is not in the registry.
pub open spec fn unknown_algorithm_message(name: Seq<char>) -> Seq<char> {
    "algorithm \""@ + name + "\" is not available; choose one of "@ + join(spec_optimizer_names(), ", "@)
}

/// The optimiser with configuration name `name`.
pub fn optimizer(name: &str) -> (res: Result<Algorithm>)
    ensures
        spec_optimizer_names().contains(name@) ==> (res matches Ok(a) && a.spec_name() == name@),
        !spec_optimizer_names().contains(name@) ==> (res matches Err(Error::NotSupported(s)) && s@
            == unknown_algorithm_message(name@)),
{
    let names = optimizer_names();
    let all: [Algorithm; 8] = [
        Algorithm::LBfgs(LBfgs),
        Algorithm::NewtonCg(NewtonCg),
        Algorithm::NewtonExact(NewtonExact),
        Algorithm::Cobyla(Cobyla),
        Algorithm::Bobyqa(Bobyqa),
        Algorithm::NelderMead(NelderMead),
        Algorithm::Spsa(Spsa),
        Algorithm::CmaEs(CmaEs),
    ];
    assert(names@.len() == strs(names@).len());
    assert(forall|k: int| 0 <= k < 8 ==> #[trigger] all@[k].spec_name() == spec_optimizer_names()[k]);
    let mut i: usize = 0;
    while i < names.len()
        invariant
            names@.len() == 8,
            strs(names@) == spec_optimizer_names(),
            forall|k: int| 0 <= k < 8 ==> #[trigger] all@[k].spec_name() == spec_optimizer_names()[k],
            i <= names@.len(),
            forall|k: int| 0 <= k < i ==> spec_optimizer_names()[k] != name@,
        decreases names@.len() - i,
    {
        assert(strs(names@)[i as int] == names@[i as int]@);
        if str_eq(names[i], name) {
            return Ok(all[i]);
        }
        i = i + 1;
    }
    let mut s = String::from_str("algorithm \"");
    s.append(name);
    s.append("\" is not available; choose one of ");
    s.append(join_strs(names, ", ").as_str());
    Err(Error::NotSupported(s))
}

/// A sink that ignores everything.
#[derive(Clone, Copy, Debug, Default)]
pub struct NoProgress;

/// A sink that prints an iteration table to standard output, every `every`-th row.
#[derive(Clone, Copy, Debug)]
pub struct ConsoleSink {
    /// Print one row in this many; 1 prints them all.
    pub every: usize,
    header: bool,
}

impl ConsoleSink {
    /// Whether the header has been printed.
    pub closed spec fn spec_header(&self) -> bool {
        self.header
    }

    /// The row interval.
    pub closed spec fn spec_every(&self) -> usize {
        self.every
    }

    /// Print every `every`-th iteration; zero counts as one.
    pub fn new(every: usize) -> (s: Self)
        ensures
            !s.spec_header(),
            s.spec_every() == if every == 0 {
                1
            } else {
                every
            },
    {
        ConsoleSink { every: if every == 0 { 1 } else { every }, header: false }
    }

    /// What to print for iteration `iteration`: the header, once before the first row, and the row itself when
    /// the iteration is a multiple of `every` (of zero, only zero is).
    pub fn due(&mut self, iteration: usize) -> (plan: (bool, bool))
        ensures
            plan.0 == !old(self).spec_header(),
            plan.1 == if old(self).spec_every() == 0 {
                iteration == 0
            } else {
                iteration % old(self).spec_every() == 0
            },
            final(self).spec_header(),
            final(self).spec_every() == old(self).spec_every(),
    {
        let header = !self.header;
        self.header = true;
        let row = if self.every == 0 {
            iteration == 0
        } else {
            iteration % self.every == 0
        };
        (header, row)
    }
}

/// Whether a run has to stop after a report, and why: a stop already decided stands; otherwise reaching the
/// target, then a cancellation, then the iteration limit.
pub open spec fn spec_stop(
    current: Option<Exit>,
    target_reached: bool,
    cancelled: bool,
    iteration: nat,
    max_iter: nat,
) -> Option<Exit> {
    if current is Some {
        current
    } else if target_reached {
        Some(Exit::TargetReached)
    } else if cancelled {
        Some(Exit::Cancelled)
    } else if iteration >= max_iter {
        Some(Exit::MaxIterations)
    } else {
        None
    }
}

/// Record the stop condition a report triggers: a stop already decided stands; otherwise reaching the target,
/// then a cancellation, then the iteration limit.
pub fn check_stop(
    exit: &mut Option<Exit>,
    target_reached: bool,
    cancelled: bool,
    iteration: usize,
    max_iter: usize,
)
    ensures
        *final(exit) == spec_stop(*old(exit), target_reached, cancelled, iteration as nat, max_iter as nat),
{
    if exit.is_some() {
        return;
    }
    if target_reached {
        *exit = Some(Exit::TargetReached);
    } else if cancelled {
        *exit = Some(Exit::Cancelled);
    } else if iteration >= max_iter {
        *exit = Some(Exit::MaxIterations);
    }
}

/// A decided stop stands: once a run has a reason to stop, later reports keep that reason whatever they carry.
pub proof fn law_stop_stands(e: Exit, target_reached: bool, cancelled: bool, iteration: nat, max_iter: nat)
    ensures
        spec_stop(Some(e), target_reached, cancelled, iteration, max_iter) == Some(e),
{
}

/// With no stop decided yet, reaching the target stops the run as `TargetReached` whatever else holds; short of
/// the target, a cancellation stops it as `Cancelled`; short of both, reaching the iteration limit stops it as
/// `MaxIterations`; otherwise it goes on.
pub proof fn law_stop_order(target_reached: bool, cancelled: bool, iteration: nat, max_iter: nat)
    ensures
        target_reached ==> spec_stop(None, target_reached, cancelled, iteration, max_iter) == Some(
            Exit::TargetReached,
        ),
        !target_reached && cancelled ==> spec_stop(None, target_reached, cancelled, iteration, max_iter) == Some(
            Exit::Cancelled,
        ),
        !target_reached && !cancelled && iteration >= max_iter ==> spec_stop(
            None,
            target_reached,
            cancelled,
            iteration,
            max_iter,
        ) == Some(Exit::MaxIterations),
        !target_reached && !cancelled && iteration < max_iter ==> spec_stop(
            None,
            target_reached,
            cancelled,
            iteration,
            max_iter,
        ) is None,
{
}

/// The exit a finished run reports: the stop already decided, or else the optimiser's own.
pub open spec fn chosen_exit(stopped: Option<Exit>, exit: Exit) -> Exit {
    match stopped {
        Some(e) => e,
        None => exit,
    }
}

/// What a finished run hands back when it evaluated a point: that point, with the exit it reports.
pub open spec fn kept<B>(best: Option<B>, stopped: Option<Exit>, exit: Exit) -> Option<(B, Exit)> {
    match best {
        Some(b) => Some((b, chosen_exit(stopped, exit))),
        None => None,
    }
}

/// The error text when a run ends with no evaluation, for an exit other than a failure.
pub open spec fn no_evaluation_message(exit: Exit) -> Seq<char> {
    "the optimiser stopped ("@ + exit.spec_message() + ") before any evaluation"@
}

/// What a finished run returns: the best point with the exit - the stop already decided, or `exit` - or, with
/// no point evaluated, the failure as an error.
pub fn finish_outcome<B>(best: Option<B>, stopped: Option<Exit>, exit: Exit) -> (res: Result<(B, Exit)>)
    ensures
        ({
            let chosen = chosen_exit(stopped, exit);
            &&& (kept(best, stopped, exit) matches Some(p) ==> res == Ok::<(B, Exit), Error>(p))
            &&& match best {
                Some(b) => res == Ok::<(B, Exit), Error>((b, chosen)),
                None => match chosen {
                    Exit::Failed(m) => res matches Err(Error::Numerical(s)) && s@ == m@,
                    other => res matches Err(Error::Numerical(s)) && s@ == no_evaluation_message(other),
                },
            }
        }),
{
    let chosen = match stopped {
        Some(e) => e,
        None => exit,
    };
    match best {
        Some(b) => Ok((b, chosen)),
        None => match chosen {
            Exit::Failed(m) => Err(Error::Numerical(m)),
            other => {
                let mut s = String::from_str("the optimiser stopped (");
                s.append(other.message().as_str());
                s.append(") before any evaluation");
                Err(Error::Numerical(s))
            },
        },
    }
}

/// What a run whose objective failed returns: the best point so far, with the failure - or a stop already
/// decided - as its exit, or the failure itself when nothing was evaluated.
pub fn failure_outcome<B>(best: Option<B>, stopped: Option<Exit>, error: Error) -> (res: Result<(B, Exit)>)
    ensures
        best matches Some(b) ==> (res matches Ok((p, e)) && p == b && (stopped matches Some(d) ==> e == d) && (
        stopped is None ==> (e matches Exit::Failed(m) && m@ == error.spec_message()))),
        best is None ==> res == Err::<(B, Exit), Error>(error),
{
    match best {
        Some(b) => {
            let exit = match stopped {
                Some(d) => d,
                None => Exit::Failed(error.to_string()),
            };
            Ok((b, exit))
        },
        None => Err(error),
    }
}

/// A cancelled run keeps its best point: when the sink cancels before any other stop, the run stops as
/// `Cancelled`, and finishing it with a point evaluated returns that point with the cancellation as its exit,
/// whatever exit the optimiser itself gave.
pub proof fn law_cancel_keeps_best<B>(best: B, iteration: nat, max_iter: nat, exit: Exit)
    ensures
        spec_stop(None, false, true, iteration, max_iter) == Some(Exit::Cancelled),
        kept(Some(best), spec_stop(None, false, true, iteration, max_iter), exit) == Some((best, Exit::Cancelled)),
{
}


/// What an algorithm asks of the objective follows from which optimiser its registry name names: the two Newton
/// methods ask for Hessians, L-BFGS for gradients, and every other optimiser for values alone.  So the algorithm
/// that [`optimizer`] returns for a name asks for what that optimiser needs.
pub proof fn law_derivatives_follow_the_optimiser(a: Algorithm)
    ensures
        a.spec_derivatives() == Derivatives::Hessian <==> (a.spec_name() == "newton-cg"@ || a.spec_name()
            == "newton-exact"@),
        a.spec_derivatives() == Derivatives::Gradient <==> a.spec_name() == "l-bfgs"@,
        a.spec_derivatives() == Derivatives::ValuesOnly <==> !(a.spec_name() == "newton-cg"@ || a.spec_name()
            == "newton-exact"@ || a.spec_name() == "l-bfgs"@),
{
    reveal_strlit("l-bfgs");
    reveal_strlit("newton-cg");
    reveal_strlit("newton-exact");
    reveal_strlit("cobyla");
    reveal_strlit("bobyqa");
    reveal_strlit("nelder-mead");
    reveal_strlit("spsa");
    reveal_strlit("cma-es");
    assert("l-bfgs"@[0] != "cobyla"@[0]);
    assert("l-bfgs"@[0] != "bobyqa"@[0]);
    assert("newton-cg"@.len() != "newton-exact"@.len());
    assert("newton-cg"@.len() != "nelder-mead"@.len());
    assert("newton-exact"@.len() != "nelder-mead"@.len());
}

} // verus!
