//! Where an interactive session's run has got to: started, reporting, finished, failed or cancelled, with the
//! convergence history, the results and the line of text shown to the user.
//!
//! The interface performs the actions - starting a run, flagging it to stop, drawing - and hands each event here.

use vstd::prelude::*;

verus! {

/// Where a run has got to.
#[derive(Debug, Clone, Copy, PartialEq, Eq, Structural)]
pub enum Status {
    /// Nothing has run yet.
    Idle,
    /// A run is in progress.
    Running,
    /// The last run finished, or was cancelled.
    Done,
    /// The last run failed.
    Failed,
}

/// Everything the interface can be told by a run.  `P` is one iteration's numbers, `R` a finished run's results.
pub enum RunMessage<P, R> {
    /// Transport detail: the worker is ready to be sent a configuration.
    Ready,
    /// One iteration's numbers.
    Progress(P),
    /// The run finished: its results, and the sentence that sums them up.
    Finished(R, String),
    /// The run could not start, or failed.
    Failed(String),
}

/// The state of the run panel.
pub struct Session<P, R> {
    /// Where the run has got to.
    pub status: Status,
    /// The line of text shown to the user.
    pub message: Option<String>,
    /// Every iteration reported by the current run, in order.
    pub history: Vec<P>,
    /// The last finished run's results.
    pub results: Option<R>,
    /// Whether a run is attached and its messages still read.
    pub running: bool,
}

/// What the panel shows, as values.
pub struct Shown<P, R> {
    /// Where the run has got to.
    pub status: Status,
    /// The line of text.
    pub message: Option<Seq<char>>,
    /// The convergence history.
    pub history: Seq<P>,
    /// The results.
    pub results: Option<R>,
}

impl<P, R> Session<P, R> {
    /// What the panel shows.
    pub open spec fn shown(&self) -> Shown<P, R> {
        Shown {
            status: self.status,
            message: match self.message {
                Some(m) => Some(m@),
                None => None,
            },
            history: self.history@,
            results: self.results,
        }
    }
}

/// The text for a failed run.
pub open spec fn failure_text(e: Seq<char>) -> Seq<char> {
    "The run failed: "@ + e
}

/// The text for a cancelled run whose best point is not delivered.
pub open spec fn cancelled_text() -> Seq<char> {
    "Cancelled. The convergence so far is kept; the partial pulse is not."@
}

/// What one message does to the panel.
pub open spec fn after<P, R>(s: Shown<P, R>, m: RunMessage<P, R>) -> Shown<P, R> {
    match m {
        RunMessage::Ready => s,
        RunMessage::Progress(p) => Shown { history: s.history.push(p), ..s },
        RunMessage::Finished(r, text) => Shown {
            status: Status::Done,
            message: Some(text@),
            results: Some(r),
            ..s
        },
        RunMessage::Failed(e) => Shown { status: Status::Failed, message: Some(failure_text(e@)), ..s },
    }
}

/// What a run of messages does to the panel, in order.
pub open spec fn after_all<P, R>(s: Shown<P, R>, ms: Seq<RunMessage<P, R>>) -> Shown<P, R>
    decreases ms.len(),
{
    if ms.len() == 0 {
        s
    } else {
        after_all(after(s, ms[0]), ms.drop_first())
    }
}

/// Whether a message ends the run.
pub open spec fn ends<P, R>(m: RunMessage<P, R>) -> bool {
    m is Finished || m is Failed
}

/// Whether some message of a run of messages ends the run.
pub open spec fn any_ends<P, R>(ms: Seq<RunMessage<P, R>>) -> bool {
    exists|i: int| 0 <= i < ms.len() && #[trigger] ends(ms[i])
}

/// Working through the messages one at a time is working through all of them.
proof fn lemma_after_all_step<P, R>(s: Shown<P, R>, done: Seq<RunMessage<P, R>>, m: RunMessage<P, R>)
    ensures
        after_all(s, done.push(m)) == after(after_all(s, done), m),
    decreases done.len(),
{
    let all = done.push(m);
    if done.len() == 0 {
        assert(all.drop_first() =~= Seq::<RunMessage<P, R>>::empty());
        assert(after_all(s, all) == after_all(after(s, all[0]), all.drop_first()));
        assert(after_all(after(s, m), Seq::<RunMessage<P, R>>::empty()) == after(s, m));
    } else {
        assert(all.drop_first() =~= done.drop_first().push(m));
        assert(all[0] == done[0]);
        lemma_after_all_step(after(s, done[0]), done.drop_first(), m);
        assert(after_all(s, all) == after_all(after(s, all[0]), all.drop_first()));
        assert(after_all(s, done) == after_all(after(s, done[0]), done.drop_first()));
    }
}

impl<P, R> Session<P, R> {
    /// A session before any run.
    pub fn new() -> (s: Self)
        ensures
            s.status == Status::Idle,
            s.message is None,
            s.history@.len() == 0,
            s.results is None,
            !s.running,
    {
        Session { status: Status::Idle, message: None, history: Vec::new(), results: None, running: false }
    }

    /// A run has been started: the history, the results and the text are cleared.
    pub fn start(&mut self)
        ensures
            final(self).status == Status::Running,
            final(self).message is None,
            final(self).history@.len() == 0,
            final(self).results is None,
            final(self).running,
    {
        self.history = Vec::new();
        self.results = None;
        self.message = None;
        self.status = Status::Running;
        self.running = true;
    }

    /// The user asked the run to stop.  Where a cancelled run still delivers its best point
    /// (`keeps_result`), the run goes on until it reports; otherwise it is dropped here and the convergence so
    /// far is all that is kept.  The caller flags the run itself.
    pub fn cancel(&mut self, keeps_result: bool)
        ensures
            keeps_result ==> final(self).shown() == old(self).shown() && final(self).running == old(self).running,
            !keeps_result ==> {
                &&& final(self).status == Status::Done
                &&& final(self).message matches Some(m) && m@ == cancelled_text()
                &&& final(self).history@ == old(self).history@
                &&& final(self).results == old(self).results
                &&& !final(self).running
            },
    {
        if !keeps_result {
            self.running = false;
            self.status = Status::Done;
            self.message = Some(String::from_str("Cancelled. The convergence so far is kept; the partial pulse is not."));
        }
    }

    /// Take in every message that has arrived, in order; the run is detached once one of them ends it.  The
    /// result says whether the run is still going, so the interface keeps drawing.
    pub fn receive(&mut self, messages: Vec<RunMessage<P, R>>) -> (going: bool)
        requires
            old(self).running,
        ensures
            final(self).shown() == after_all(old(self).shown(), messages@),
            going == !any_ends(messages@),
            final(self).running == going,
    {
        let ghost all = messages@;
        let ghost start = self.shown();
        let mut rest = messages;
        let mut finished = false;
        while rest.len() > 0
            invariant
                rest@.len() <= all.len(),
                rest@ == all.subrange(all.len() - rest@.len(), all.len() as int),
                self.shown() == after_all(start, all.subrange(0, all.len() - rest@.len())),
                finished == any_ends(all.subrange(0, all.len() - rest@.len())),
                self.running,
            decreases rest@.len(),
        {
            let ghost k = all.len() - rest@.len();
            let ghost before = self.shown();
            let m = rest.remove(0);
            assert(m == all[k]);
            proof {
                assert(all.subrange(0, k + 1) =~= all.subrange(0, k).push(m));
                lemma_after_all_step(start, all.subrange(0, k), m);
            }
            match m {
                RunMessage::Ready => {},
                RunMessage::Progress(p) => {
                    self.history.push(p);
                },
                RunMessage::Finished(r, text) => {
                    self.message = Some(text);
                    self.results = Some(r);
                    self.status = Status::Done;
                    finished = true;
                },
                RunMessage::Failed(e) => {
                    let mut text = String::from_str("The run failed: ");
                    text.append(e.as_str());
                    self.message = Some(text);
                    self.status = Status::Failed;
                    finished = true;
                },
            }
            proof {
                let prev = all.subrange(0, k);
                let done = all.subrange(0, k + 1);
                assert(done =~= prev.push(m));
                if ends(m) {
                    assert(ends(done[k]));
                } else if any_ends(prev) {
                    let j = choose|j: int| 0 <= j < prev.len() && #[trigger] ends(prev[j]);
                    assert(done[j] == prev[j]);
                } else {
                    assert forall|i: int| 0 <= i < done.len() implies !#[trigger] ends(done[i]) by {
                        if i < k {
                            assert(done[i] == prev[i]);
                        }
                    }
                }
            }
        }
        assert(all.subrange(0, all.len() as int) =~= all);
        if finished {
            self.running = false;
        }
        !finished
    }

    /// A preset was loaded.
    pub fn preset_loaded(&mut self, name: &str)
        ensures
            final(self).status == old(self).status,
            final(self).history@ == old(self).history@,
            final(self).results == old(self).results,
            final(self).running == old(self).running,
            final(self).message matches Some(m) && m@ == "Loaded the preset \""@ + name@ + "\"."@,
    {
        let mut m = String::from_str("Loaded the preset \"");
        m.append(name);
        m.append("\".");
        self.message = Some(m);
    }

    /// A file could not be handed to the user: why.
    pub fn offer_failed(&mut self, why: String)
        ensures
            final(self).status == old(self).status,
            final(self).history@ == old(self).history@,
            final(self).results == old(self).results,
            final(self).running == old(self).running,
            final(self).message matches Some(m) && m@ == why@,
    {
        self.message = Some(why);
    }

    /// A configuration file was read: loaded, or why not.
    pub fn loaded(&mut self, outcome: core::result::Result<(), String>)
        ensures
            final(self).status == old(self).status,
            final(self).history@ == old(self).history@,
            final(self).results == old(self).results,
            final(self).running == old(self).running,
            outcome is Ok ==> (final(self).message matches Some(m) && m@ == "Configuration loaded."@),
            outcome matches Err(e) ==> (final(self).message matches Some(m) && m@ == "Not loaded: "@ + e@),
    {
        match outcome {
            Ok(()) => {
                self.message = Some(String::from_str("Configuration loaded."));
            },
            Err(e) => {
                let mut m = String::from_str("Not loaded: ");
                m.append(e.as_str());
                self.message = Some(m);
            },
        }
    }
}

/// Whether a run can be started: none is running and the configuration has no problem.
pub fn run_enabled(running: bool, problems: usize) -> (b: bool)
    ensures
        b == (!running && problems == 0),
{
    !running && problems == 0
}

/// Whether the results can be exported: there are results.
pub fn export_enabled(has_results: bool) -> (b: bool)
    ensures
        b == has_results,
{
    has_results
}

/// Whether the configuration can be edited, loaded or replaced by a preset: not while a run is going.
pub fn editing_enabled(running: bool) -> (b: bool)
    ensures
        b == !running,
{
    !running
}

/// A cancelled run keeps its result where the platform delivers it: cancelling leaves the panel as it was, and
/// the run's final report then shows its results as done.
pub proof fn law_cancelled_run_delivers<P, R>(s: Shown<P, R>, r: R, text: String)
    ensures
        after_all(s, seq![RunMessage::Finished(r, text)]) == (Shown {
            status: Status::Done,
            message: Some(text@),
            history: s.history,
            results: Some(r),
        }),
{
    let ms = seq![RunMessage::<P, R>::Finished(r, text)];
    assert(ms.drop_first() =~= Seq::<RunMessage<P, R>>::empty());
    assert(after_all(s, ms) == after_all(after(s, ms[0]), ms.drop_first()));
    assert(after_all(after(s, ms[0]), Seq::<RunMessage<P, R>>::empty()) == after(s, ms[0]));
}

/// Progress only adds to the history: a run of progress reports appends them, in order, and changes nothing
/// else.
pub proof fn law_progress_appends<P, R>(s: Shown<P, R>, ps: Seq<P>)
    ensures
        after_all(s, ps.map_values(|p: P| RunMessage::<P, R>::Progress(p))) == (Shown { history: s.history + ps, ..s }),
    decreases ps.len(),
{
    let ms = ps.map_values(|p: P| RunMessage::<P, R>::Progress(p));
    if ps.len() == 0 {
        assert(s.history + ps =~= s.history);
    } else {
        let s1 = after(s, ms[0]);
        assert(ms.drop_first() =~= ps.drop_first().map_values(|p: P| RunMessage::<P, R>::Progress(p)));
        law_progress_appends(s1, ps.drop_first());
        assert(s1.history + ps.drop_first() =~= s.history + ps);
    }
}

} // verus!
