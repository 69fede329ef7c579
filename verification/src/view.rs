//! The results area's choices: which tab shows, which initial state is plotted, and how the state components
//! are laid out.

use vstd::prelude::*;

use crate::config::Coverage;
use crate::edit::opt_view;
use crate::text::{str_eq, strs};

verus! {

/// A tab of the results area.
#[derive(Debug, Clone, Copy, PartialEq, Eq, Structural)]
pub enum Tab {
    /// Fidelity per iteration.
    Convergence,
    /// The optimised waveforms.
    Pulses,
    /// Observables and state components over time.
    Dynamics,
    /// The excitation profile.
    Profile,
}

/// What the results area draws.
#[derive(Debug, Clone, Copy, PartialEq, Eq, Structural)]
pub enum Panel {
    /// The convergence plot.
    Convergence,
    /// The pulses.
    Pulses,
    /// The dynamics.
    Dynamics,
    /// The excitation profile.
    Profile,
    /// A note that a run is needed first.
    Waiting,
}

/// Which tab is showing, and the choices made in it.
#[derive(Debug, Clone, Copy, PartialEq, Eq, Structural)]
pub struct ResultsView {
    /// The tab.
    pub tab: Tab,
    /// Whether the convergence plot shows `log₁₀(1 − fidelity)` rather than the fidelity.
    pub log_infidelity: bool,
    /// The initial state whose dynamics and profile are plotted.
    pub initial_state: usize,
}

impl Default for ResultsView {
    /// The convergence tab, on a linear scale, for the first initial state.
    fn default() -> (v: ResultsView)
        ensures
            v.tab == Tab::Convergence,
            !v.log_infidelity,
            v.initial_state == 0,
    {
        ResultsView { tab: Tab::Convergence, log_infidelity: false, initial_state: 0 }
    }
}

impl ResultsView {
    /// Whether a tab can be chosen: every tab but the convergence needs results.
    pub open spec fn spec_enabled(tab: Tab, has_results: bool) -> bool {
        tab == Tab::Convergence || has_results
    }

    /// Whether `tab` can be chosen.
    pub fn enabled(tab: Tab, has_results: bool) -> (b: bool)
        ensures
            b == Self::spec_enabled(tab, has_results),
    {
        match tab {
            Tab::Convergence => true,
            _ => has_results,
        }
    }

    /// What the results area draws for this view.
    pub open spec fn spec_panel(self, has_results: bool) -> Panel {
        match self.tab {
            Tab::Convergence => Panel::Convergence,
            Tab::Pulses => if has_results { Panel::Pulses } else { Panel::Waiting },
            Tab::Dynamics => if has_results { Panel::Dynamics } else { Panel::Waiting },
            Tab::Profile => if has_results { Panel::Profile } else { Panel::Waiting },
        }
    }

    /// What the results area draws: the chosen tab, or a note that a run is needed first.
    pub fn panel(&self, has_results: bool) -> (p: Panel)
        ensures
            p == self.spec_panel(has_results),
    {
        match self.tab {
            Tab::Convergence => Panel::Convergence,
            Tab::Pulses => if has_results { Panel::Pulses } else { Panel::Waiting },
            Tab::Dynamics => if has_results { Panel::Dynamics } else { Panel::Waiting },
            Tab::Profile => if has_results { Panel::Profile } else { Panel::Waiting },
        }
    }

    /// Keep the chosen initial state among the `n` a run has, and say whether there is a choice to show.
    pub fn pick_initial_state(&mut self, n: usize) -> (choice: bool)
        ensures
            final(self).tab == old(self).tab,
            final(self).log_infidelity == old(self).log_infidelity,
            final(self).initial_state == if old(self).initial_state < n { old(self).initial_state } else if n
                > 0 { (n - 1) as usize } else { 0 },
            choice == (n > 1),
    {
        let last = if n > 0 { n - 1 } else { 0 };
        if self.initial_state > last {
            self.initial_state = last;
        }
        n > 1
    }
}

/// The number of plot columns for `n` state components: two beyond four components, one otherwise.
pub fn component_columns(n: usize) -> (c: usize)
    ensures
        c == if n > 4 { 2usize } else { 1usize },
{
    if n > 4 {
        2
    } else {
        1
    }
}

/// Components `0..n` in rows of `columns`, the last row possibly shorter.
pub fn component_rows(n: usize, columns: usize) -> (rows: Vec<Vec<usize>>)
    requires
        columns > 0,
    ensures
        forall|r: int| 0 <= r < rows@.len() ==> 0 < #[trigger] rows@[r]@.len() <= columns,
        forall|r: int, k: int|
            0 <= r < rows@.len() && 0 <= k < rows@[r]@.len() ==> #[trigger] rows@[r]@[k] == r * columns + k,
        rows@.len() * columns >= n,
        rows@.len() == 0 || (rows@.len() - 1) * columns < n,
        forall|r: int| 0 <= r < rows@.len() - 1 ==> #[trigger] rows@[r]@.len() == columns,
        rows@.len() > 0 ==> (rows@.len() - 1) * columns + rows@[rows@.len() - 1]@.len() == n,
{
    let mut rows: Vec<Vec<usize>> = Vec::new();
    let mut start: usize = 0;
    while start < n
        invariant
            columns > 0,
            start <= n,
            start == rows@.len() * columns,
            forall|r: int| 0 <= r < rows@.len() ==> #[trigger] rows@[r]@.len() == columns,
            forall|r: int, k: int|
                0 <= r < rows@.len() && 0 <= k < rows@[r]@.len() ==> #[trigger] rows@[r]@[k] == r * columns + k,
            rows@.len() == 0 || (rows@.len() - 1) * columns < n,
            rows@.len() > 0 ==> (rows@.len() - 1) * columns + rows@[rows@.len() - 1]@.len() == start,
        decreases n - start,
    {
        let end = if n - start > columns { start + columns } else { n };
        let mut row: Vec<usize> = Vec::new();
        let mut c = start;
        while c < end
            invariant
                start <= c <= end,
                row@.len() == c - start,
                forall|k: int| 0 <= k < row@.len() ==> #[trigger] row@[k] == start + k,
            decreases end - c,
        {
            row.push(c);
            c = c + 1;
        }
        let ghost r = rows@.len() as int;
        rows.push(row);
        assert((r + 1) * columns == r * columns + columns) by (nonlinear_arith);
        assert(rows@[r]@.len() == end - start);
        if end == n {
            assert(rows@.len() * columns >= n) by (nonlinear_arith)
                requires
                    rows@.len() == r + 1,
                    start == r * columns,
                    end - start <= columns,
                    end == n,
            ;
            return rows;
        }
        start = end;
    }
    rows
}

/// Whether some qubit samples its offsets selectively, inside and outside a band.
pub open spec fn any_selective(coverage: Seq<Coverage>) -> bool {
    exists|q: int| 0 <= q < coverage.len() && (#[trigger] coverage[q] == Coverage::Selective || coverage[q]
        == Coverage::BandSelective)
}

/// Whether some qubit follows a band-selective profile.
pub open spec fn any_band(coverage: Seq<Coverage>) -> bool {
    exists|q: int| 0 <= q < coverage.len() && #[trigger] coverage[q] == Coverage::BandSelective
}

/// `names` if `b`, nothing otherwise.
pub open spec fn rows_if(b: bool, names: Seq<Seq<char>>) -> Seq<Seq<char>> {
    if b {
        names
    } else {
        seq![]
    }
}

/// The per-qubit settings the qubit grid shows, by row label: the ones every configuration has, then the band
/// settings when a qubit samples selectively, the profile order when one is band-selective, the relaxation
/// times when relaxation is on, the anharmonicity for transmons, and the AC Stark shift switch - with its
/// coefficients when it is on - for two-level transmons.
pub open spec fn spec_qubit_rows(coverage: Seq<Coverage>, model: Option<Seq<char>>, dissipative: bool, stark: bool) -> Seq<
    Seq<char>,
> {
    let transmon = model == Some("superconducting"@) || model == Some("duffing_transmon"@);
    let two_level = model == Some("superconducting"@);
    seq![
        "Offset Δ"@,
        "Offset spread σΔ"@,
        "Rabi frequency"@,
        "Rabi spread"@,
        "Basis"@,
        "Waveform"@,
        "Coefficients"@,
        "Envelope"@,
        "Envelope order"@,
        "Coverage"@,
        "Sweep width"@,
        "Carrier offset"@,
    ] + rows_if(any_selective(coverage), seq!["Band width"@, "Fraction outside band"@]) + rows_if(
        any_band(coverage),
        seq!["Profile order"@],
    ) + rows_if(dissipative, seq!["T1"@, "T2"@]) + rows_if(transmon, seq!["Anharmonicity"@]) + rows_if(
        two_level,
        seq!["AC Stark shift"@],
    ) + rows_if(two_level && stark, seq!["Stark coefficient"@])
}

fn push_rows(rows: &mut Vec<&'static str>, add: &[&'static str])
    ensures
        final(rows)@ == old(rows)@ + add@,
{
    let mut i: usize = 0;
    let ghost start = rows@;
    while i < add.len()
        invariant
            i <= add@.len(),
            rows@ == start + add@.take(i as int),
        decreases add@.len() - i,
    {
        rows.push(add[i]);
        i = i + 1;
        assert(rows@ =~= start + add@.take(i as int));
    }
    assert(add@.take(add@.len() as int) =~= add@);
}

/// The labels of the qubit grid's rows for qubits with offset coverages `coverage` under the model `model`, with
/// relaxation on or off and the AC Stark shift on or off.
pub fn qubit_rows(coverage: &[Coverage], model: Option<&str>, dissipative: bool, stark: bool) -> (rows: Vec<
    &'static str,
>)
    ensures
        strs(rows@) == spec_qubit_rows(coverage@, opt_view(model), dissipative, stark),
{
    let mut selective = false;
    let mut band = false;
    let mut q: usize = 0;
    while q < coverage.len()
        invariant
            q <= coverage@.len(),
            selective == any_selective(coverage@.take(q as int)),
            band == any_band(coverage@.take(q as int)),
        decreases coverage@.len() - q,
    {
        let ghost before = coverage@.take(q as int);
        let c = coverage[q];
        if c == Coverage::Selective || c == Coverage::BandSelective {
            selective = true;
        }
        if c == Coverage::BandSelective {
            band = true;
        }
        proof {
            let after = coverage@.take(q + 1);
            assert(after =~= before.push(c));
            if any_selective(before) {
                let j = choose|j: int| 0 <= j < before.len() && (#[trigger] before[j] == Coverage::Selective
                    || before[j] == Coverage::BandSelective);
                assert(after[j] == before[j]);
            }
            if any_band(before) {
                let j = choose|j: int| 0 <= j < before.len() && #[trigger] before[j] == Coverage::BandSelective;
                assert(after[j] == before[j]);
            }
            if c == Coverage::Selective || c == Coverage::BandSelective {
                assert(after[q as int] == c);
            }
            if c == Coverage::BandSelective {
                assert(after[q as int] == c);
            }
            if !any_selective(before) && !(c == Coverage::Selective || c == Coverage::BandSelective) {
                assert forall|j: int| 0 <= j < after.len() implies !(#[trigger] after[j] == Coverage::Selective
                    || after[j] == Coverage::BandSelective) by {
                    if j < q {
                        assert(after[j] == before[j]);
                    }
                }
            }
            if !any_band(before) && c != Coverage::BandSelective {
                assert forall|j: int| 0 <= j < after.len() implies !(#[trigger] after[j]
                    == Coverage::BandSelective) by {
                    if j < q {
                        assert(after[j] == before[j]);
                    }
                }
            }
        }
        q = q + 1;
    }
    assert(coverage@.take(coverage@.len() as int) =~= coverage@);
    let (transmon, two_level) = match model {
        Some(m) => {
            let two = str_eq(m, "superconducting");
            (two || str_eq(m, "duffing_transmon"), two)
        },
        None => (false, false),
    };
    proof {
        reveal_strlit("superconducting");
        reveal_strlit("duffing_transmon");
    }
    let mut rows: Vec<&'static str> = Vec::new();
    push_rows(
        &mut rows,
        &[
            "Offset Δ",
            "Offset spread σΔ",
            "Rabi frequency",
            "Rabi spread",
            "Basis",
            "Waveform",
            "Coefficients",
            "Envelope",
            "Envelope order",
            "Coverage",
            "Sweep width",
            "Carrier offset",
        ],
    );
    if selective {
        push_rows(&mut rows, &["Band width", "Fraction outside band"]);
    }
    if band {
        push_rows(&mut rows, &["Profile order"]);
    }
    if dissipative {
        push_rows(&mut rows, &["T1", "T2"]);
    }
    if transmon {
        push_rows(&mut rows, &["Anharmonicity"]);
    }
    if two_level {
        push_rows(&mut rows, &["AC Stark shift"]);
    }
    if two_level && stark {
        push_rows(&mut rows, &["Stark coefficient"]);
    }
    assert(strs(rows@) =~= spec_qubit_rows(coverage@, opt_view(model), dissipative, stark));
    rows
}

} // verus!
