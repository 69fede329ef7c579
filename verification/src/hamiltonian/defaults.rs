//! What a model's default configuration starts from, apart from its physical values: the qubit names, the
//! initial state and the target, and which family of settings the model takes.

use vstd::prelude::*;

use crate::config::validate::{
    ConfigFacts, TargetFacts, axes_problems, axis_name_problems, gate_problems, state_problems, states_problems,
    string_lists, target_problems,
};
use crate::config::validate::{
    dissipation_problems, len_problem, model_problems, optimisation_problems, qubit_problems, qubits_problems,
    shape_problems, sign_problem, spec_validate,
};
use crate::config::{Coverage, STATE_AXES, Space, WaveformMode};
use crate::edit::{copies, repeat_name, repeat_value};
use crate::basis::{BasisKind, spec_basis_of, spec_envelope_names};
use crate::optim::spec_optimizer_names;
use crate::error::{Error, Result};
use crate::hamiltonian::{model_names, spec_model_names};
use crate::text::{decimal, decimal_string, join, join_strs, str_eq, strings, strs};

verus! {

/// The two families of default settings: spin chains, and transmons with two or three levels.  Each fixes the
/// offset step between qubits, the nearest-neighbour coupling, the target gate and the first two states.
#[derive(Clone, Copy, Debug, PartialEq, Eq, Structural)]
pub enum Family {
    /// Spin chains: a CNOT from `Z, -Z`.
    SpinChain,
    /// Transmons: an iSWAP from `-Z, Z`.
    Transmon,
}

impl Family {
    /// What a default configuration of two or more qubits aims at: a gate.
    pub open spec fn spec_gate(self) -> Seq<char> {
        match self {
            Family::SpinChain => "CNOT"@,
            Family::Transmon => "iSWAP"@,
        }
    }

    /// The axes of the first two qubits in a default initial state.
    pub open spec fn spec_first_states(self) -> (Seq<char>, Seq<char>) {
        match self {
            Family::SpinChain => ("Z"@, "-Z"@),
            Family::Transmon => ("-Z"@, "Z"@),
        }
    }
}

/// A default target.
#[derive(Clone, Debug)]
pub enum DefaultTarget {
    /// One product state per initial state: an axis per qubit.
    Axis(Vec<Vec<String>>),
    /// One gate per initial state.
    Gate(Vec<String>),
}

/// The part of a model's default configuration that is not a physical value.
#[derive(Clone, Debug)]
pub struct DefaultLayout {
    /// Which family of settings the model takes.
    pub family: Family,
    /// Whether the model needs anharmonicities (three-level transmons).
    pub anharmonic: bool,
    /// The qubit names, `q1` to `qn`.
    pub qubits: Vec<String>,
    /// The initial states: one, with an axis per qubit.
    pub initial_states: Vec<Vec<String>>,
    /// What the initial state should become.
    pub target: DefaultTarget,
}

/// The family of settings the model `name` takes, if it is a model.
pub open spec fn spec_family(name: Seq<char>) -> Option<Family> {
    if name == "spin_chain"@ {
        Some(Family::SpinChain)
    } else if name == "superconducting"@ || name == "duffing_transmon"@ {
        Some(Family::Transmon)
    } else {
        None
    }
}

/// The name of qubit `i`, counted from zero: `q1`, `q2`, ...
pub open spec fn qubit_name(i: nat) -> Seq<char> {
    "q"@ + decimal(i + 1)
}

/// The names of `n` qubits, `q1` to `qn`.
pub fn qubit_names(n: usize) -> (names: Vec<String>)
    ensures
        names@.len() == n,
        forall|i: int| 0 <= i < n ==> #[trigger] names@[i]@ == qubit_name(i as nat),
{
    let mut names: Vec<String> = Vec::new();
    let mut i: usize = 0;
    while i < n
        invariant
            i <= n,
            names@.len() == i,
            forall|k: int| 0 <= k < i ==> #[trigger] names@[k]@ == qubit_name(k as nat),
        decreases n - i,
    {
        let mut s = String::from_str("q");
        s.append(decimal_string(i + 1).as_str());
        names.push(s);
        i = i + 1;
    }
    names
}

/// Axis `q` of the default initial state of `n` qubits: `Z` for a lone qubit; otherwise the family's first two
/// axes, then `-Z`.
pub open spec fn default_axis_of(family: Family, n: nat, q: int) -> Seq<char> {
    if n == 1 {
        "Z"@
    } else if q == 0 {
        family.spec_first_states().0
    } else if q == 1 {
        family.spec_first_states().1
    } else {
        "-Z"@
    }
}

/// The error text for a name that is not a model.
pub open spec fn unknown_model_message(name: Seq<char>) -> Seq<char> {
    "unknown hamiltonian_type \""@ + name + "\"; choose one of "@ + join(spec_model_names(), ", "@)
}

/// `l` is the default layout of `n` qubits of a model of `family`, three-level when `anharmonic`: qubits `q1` to
/// `qn`; one initial state; as target, `-Z` for a lone qubit and the family's gate otherwise.
pub open spec fn is_default_layout(l: DefaultLayout, family: Family, anharmonic: bool, n: nat) -> bool {
    &&& l.family == family
    &&& l.anharmonic == anharmonic
    &&& l.qubits@.len() == n
    &&& (forall|i: int| 0 <= i < n ==> #[trigger] l.qubits@[i]@ == qubit_name(i as nat))
    &&& l.initial_states@.len() == 1
    &&& l.initial_states@[0]@.len() == n
    &&& (forall|q: int| 0 <= q < n ==> #[trigger] l.initial_states@[0]@[q]@ == default_axis_of(family, n, q))
    &&& (n == 1 ==> (l.target matches DefaultTarget::Axis(a) && a@.len() == 1 && a@[0]@.len() == 1
        && a@[0]@[0]@ == "-Z"@))
    &&& (n > 1 ==> (l.target matches DefaultTarget::Gate(g) && g@.len() == 1 && g@[0]@ == family.spec_gate()))
}

fn first_states(family: Family) -> (s: (&'static str, &'static str))
    ensures
        s.0@ == family.spec_first_states().0,
        s.1@ == family.spec_first_states().1,
{
    match family {
        Family::SpinChain => ("Z", "-Z"),
        Family::Transmon => ("-Z", "Z"),
    }
}

fn gate(family: Family) -> (s: &'static str)
    ensures
        s@ == family.spec_gate(),
{
    match family {
        Family::SpinChain => "CNOT",
        Family::Transmon => "iSWAP",
    }
}

fn initial_state(family: Family, n: usize) -> (state: Vec<String>)
    requires
        n > 0,
    ensures
        state@.len() == n,
        forall|q: int| 0 <= q < n ==> #[trigger] state@[q]@ == default_axis_of(family, n as nat, q),
{
    let mut state: Vec<String> = Vec::new();
    if n == 1 {
        state.push(String::from_str("Z"));
        return state;
    }
    let (a, b) = first_states(family);
    state.push(String::from_str(a));
    state.push(String::from_str(b));
    let mut q: usize = 2;
    while q < n
        invariant
            2 <= q <= n,
            n > 1,
            state@.len() == q,
            forall|k: int| 0 <= k < q ==> #[trigger] state@[k]@ == default_axis_of(family, n as nat, k),
        decreases n - q,
    {
        state.push(String::from_str("-Z"));
        q = q + 1;
    }
    state
}

/// The qubit names, initial state and target of the default configuration of `n_qubits` qubits of the model
/// `name`, and the family of physical settings it takes.  No qubits, or a name that is not a model, is a
/// configuration error.
pub fn default_layout(name: &str, n_qubits: usize) -> (res: Result<DefaultLayout>)
    ensures
        n_qubits == 0 ==> (res matches Err(Error::Config(m)) && m@ == "at least one qubit is needed"@),
        n_qubits > 0 && spec_family(name@) is None ==> (res matches Err(Error::Config(m)) && m@
            == unknown_model_message(name@)),
        n_qubits > 0 ==> (spec_family(name@) matches Some(family) ==> (res matches Ok(l) && is_default_layout(
            l,
            family,
            name@ == "duffing_transmon"@,
            n_qubits as nat,
        ))),
{
    if n_qubits == 0 {
        return Err(Error::Config(String::from_str("at least one qubit is needed")));
    }
    let n = n_qubits;
    let family = if str_eq(name, "spin_chain") {
        Family::SpinChain
    } else if str_eq(name, "superconducting") || str_eq(name, "duffing_transmon") {
        Family::Transmon
    } else {
        let mut m = String::from_str("unknown hamiltonian_type \"");
        m.append(name);
        m.append("\"; choose one of ");
        let names = model_names();
        m.append(join_strs(names, ", ").as_str());
        return Err(Error::Config(m));
    };
    let anharmonic = str_eq(name, "duffing_transmon");
    let qubits = qubit_names(n);
    let mut initial_states: Vec<Vec<String>> = Vec::new();
    initial_states.push(initial_state(family, n));
    let target = if n == 1 {
        let mut axis: Vec<String> = Vec::new();
        axis.push(String::from_str("-Z"));
        let mut axes: Vec<Vec<String>> = Vec::new();
        axes.push(axis);
        DefaultTarget::Axis(axes)
    } else {
        let mut gates: Vec<String> = Vec::new();
        gates.push(String::from_str(gate(family)));
        DefaultTarget::Gate(gates)
    };
    let l = DefaultLayout { family, anharmonic, qubits, initial_states, target };
    assert(is_default_layout(l, family, name@ == "duffing_transmon"@, n as nat));
    Ok(l)
}

/// Axis names that are all allowed draw no problem.
proof fn lemma_allowed_axes(what: Seq<char>, s: Seq<Seq<char>>, allowed: Seq<Seq<char>>, k: nat)
    requires
        k <= s.len(),
        forall|i: int| 0 <= i < k ==> allowed.contains(#[trigger] s[i]),
    ensures
        axis_name_problems(what, s, allowed, k) == Seq::<Seq<char>>::empty(),
    decreases k,
{
    if k > 0 {
        lemma_allowed_axes(what, s, allowed, (k - 1) as nat);
        assert(allowed.contains(s[k - 1]));
    }
}

/// `Z` and `-Z` are state axes.
proof fn lemma_default_axes_allowed()
    ensures
        strs(STATE_AXES@).contains("Z"@),
        strs(STATE_AXES@).contains("-Z"@),
{
    assert(strs(STATE_AXES@)[0] == "Z"@);
    assert(strs(STATE_AXES@)[1] == "-Z"@);
}

/// The states and targets of a model's default configuration draw no problem from the checks, provided its
/// gate is one of the gates defined for its number of qubits: one initial state with an allowed axis per qubit,
/// one target, and that target allowed.
pub proof fn law_default_states_pass(l: DefaultLayout, family: Family, anharmonic: bool, f: ConfigFacts)
    requires
        is_default_layout(l, family, anharmonic, f.n_qubits as nat),
        f.n_qubits > 0,
        f.initial_states@ == l.initial_states@,
        l.target matches DefaultTarget::Axis(a) ==> f.targets == TargetFacts::Axis(a),
        l.target matches DefaultTarget::Gate(g) ==> f.targets == TargetFacts::Gate(g),
        f.n_qubits > 1 ==> strings(f.gate_names@).contains(family.spec_gate()),
    ensures
        state_problems(f) == Seq::<Seq<char>>::empty(),
{
    let n = f.n_qubits as nat;
    let allowed = strs(STATE_AXES@);
    lemma_default_axes_allowed();
    let states = string_lists(f.initial_states@);
    assert(states.len() == 1);
    let s0 = states[0];
    assert(s0 == strings(l.initial_states@[0]@));
    assert(s0.len() == n);
    assert forall|i: int| 0 <= i < n implies allowed.contains(#[trigger] s0[i]) by {
        assert(s0[i] == l.initial_states@[0]@[i]@);
    }
    lemma_allowed_axes("initial state "@ + decimal(1) + seq![], s0, allowed, n);
    assert(axes_problems("initial state "@ + decimal(1) + seq![], s0, n, allowed) == Seq::<Seq<char>>::empty());
    assert(states_problems("initial state "@, seq![], states, n, allowed, 0) == Seq::<Seq<char>>::empty());
    assert(states_problems("initial state "@, seq![], states, n, allowed, 1) == states_problems(
        "initial state "@,
        seq![],
        states,
        n,
        allowed,
        0,
    ) + axes_problems("initial state "@ + decimal(1) + seq![], states[0], n, allowed));
    assert(states_problems("initial state "@, seq![], states, n, allowed, 1) =~= Seq::<Seq<char>>::empty());
    match l.target {
        DefaultTarget::Axis(a) => {
            let t = string_lists(a@);
            assert(t.len() == 1);
            assert(t[0] == strings(a@[0]@));
            assert(t[0].len() == 1);
            assert(t[0][0] == "-Z"@);
            assert(n == 1);
            assert(allowed.contains(t[0][0]));
            lemma_allowed_axes("target "@ + decimal(1) + seq![], t[0], allowed, n);
            assert(axes_problems("target "@ + decimal(1) + seq![], t[0], n, allowed) == Seq::<Seq<char>>::empty());
            assert(states_problems("target "@, seq![], t, n, allowed, 0) == Seq::<Seq<char>>::empty());
            assert(states_problems("target "@, seq![], t, n, allowed, 1) == states_problems(
                "target "@,
                seq![],
                t,
                n,
                allowed,
                0,
            ) + axes_problems("target "@ + decimal(1) + seq![], t[0], n, allowed));
            assert(states_problems("target "@, seq![], t, n, allowed, 1) =~= Seq::<Seq<char>>::empty());
            assert(target_problems(f) =~= Seq::<Seq<char>>::empty());
        },
        DefaultTarget::Gate(g) => {
            let gs = strings(g@);
            assert(n > 1);
            assert(gs[0] == family.spec_gate());
            assert(strings(f.gate_names@).contains(gs[0]));
            assert(gate_problems(gs, strings(f.gate_names@), n, 0) == Seq::<Seq<char>>::empty());
            assert(gate_problems(gs, strings(f.gate_names@), n, 1) =~= Seq::<Seq<char>>::empty());
            assert(target_problems(f) =~= Seq::<Seq<char>>::empty());
        },
    }
    assert(state_problems(f) =~= Seq::<Seq<char>>::empty());
}

/// The plain settings of every default configuration of `n` qubits: the pulse grid, the basis, the envelope,
/// the offset coverage and the optimiser, which do not depend on the model.
#[derive(Clone, Debug)]
pub struct DefaultSettings {
    /// Points in the pulse, per qubit: 100.
    pub point_in_pulse: Vec<usize>,
    /// Basis per qubit: `cheb`.
    pub wf_type: Vec<String>,
    /// Waveform mode per qubit: `cart`.
    pub wf_mode: Vec<WaveformMode>,
    /// Envelope per qubit: `gn`.
    pub amplitude_envelope: Vec<String>,
    /// Envelope order per qubit: 1.
    pub amplitude_order: Vec<u32>,
    /// Offset coverage per qubit: broadband.
    pub coverage: Vec<Coverage>,
    /// Super-Gaussian order per qubit: 2.
    pub profile_order: Vec<u32>,
    /// Coefficients per qubit: 16.
    pub n_para: Vec<usize>,
    /// Coupling type: `XY`.
    pub coupling_type: String,
    /// Compute resource: `cpu`.
    pub compute_resource: String,
    /// State space: Hilbert.
    pub space: Space,
    /// Sampled drift Hamiltonians: 1.
    pub h0_snapshots: usize,
    /// Sampled Rabi frequencies: 1.
    pub omega_r_snapshots: usize,
    /// Optimiser: `l-bfgs`.
    pub algorithm: String,
    /// Iteration limit: 300.
    pub max_iter: usize,
}

/// `s` holds the plain settings of a default configuration of `n` qubits.
pub open spec fn is_default_settings(s: DefaultSettings, n: nat) -> bool {
    &&& s.point_in_pulse@ == copies(100usize, n)
    &&& strings(s.wf_type@) == copies("cheb"@, n)
    &&& s.wf_mode@ == copies(WaveformMode::Cart, n)
    &&& strings(s.amplitude_envelope@) == copies("gn"@, n)
    &&& s.amplitude_order@ == copies(1u32, n)
    &&& s.coverage@ == copies(Coverage::Broadband, n)
    &&& s.profile_order@ == copies(2u32, n)
    &&& s.n_para@ == copies(16usize, n)
    &&& s.coupling_type@ == "XY"@
    &&& s.compute_resource@ == "cpu"@
    &&& s.space == Space::Hilbert
    &&& s.h0_snapshots == 1
    &&& s.omega_r_snapshots == 1
    &&& s.algorithm@ == "l-bfgs"@
    &&& s.max_iter == 300
}

/// The plain settings of a default configuration of `n` qubits.
pub fn default_settings(n: usize) -> (s: DefaultSettings)
    ensures
        is_default_settings(s, n as nat),
{
    DefaultSettings {
        point_in_pulse: repeat_value(100usize, n),
        wf_type: repeat_name("cheb", n),
        wf_mode: repeat_value(WaveformMode::Cart, n),
        amplitude_envelope: repeat_name("gn", n),
        amplitude_order: repeat_value(1u32, n),
        coverage: repeat_value(Coverage::Broadband, n),
        profile_order: repeat_value(2u32, n),
        n_para: repeat_value(16usize, n),
        coupling_type: String::from_str("XY"),
        compute_resource: String::from_str("cpu"),
        space: Space::Hilbert,
        h0_snapshots: 1,
        omega_r_snapshots: 1,
        algorithm: String::from_str("l-bfgs"),
        max_iter: 300,
    }
}

/// `f` is what the checks read of the default configuration of the model `name` made from the layout `l` and the
/// settings `s`: the plain settings as they are, one entry per qubit in every list of physical values, each of
/// those values passing its check (the defaults' values are fixed: offsets, spreads, durations, sweep widths,
/// bandwidths, ratios, a `J` with couplings above the diagonal only, a zero `sigma_J`, a target fidelity of
/// 0.999), anharmonicities for the three-level model only, and no relaxation.
pub open spec fn is_default_facts(f: ConfigFacts, name: Seq<char>, l: DefaultLayout, s: DefaultSettings) -> bool {
    let n = f.n_qubits as nat;
    &&& f.hamiltonian_type matches Some(h) && h@ == name
    &&& f.omega_r_max == n
    &&& f.sigma_omega_r_max@ == copies(true, n)
    &&& f.pulse_duration@ == copies(true, n)
    &&& f.point_in_pulse@ == s.point_in_pulse@
    &&& f.wf_type@ == s.wf_type@
    &&& f.wf_mode@ == s.wf_mode@
    &&& f.amplitude_envelope@ == s.amplitude_envelope@
    &&& f.amplitude_order@ == s.amplitude_order@
    &&& f.coverage@ == s.coverage@
    &&& f.sw@ == copies(true, n)
    &&& f.pulse_offset == n
    &&& f.pulse_bandwidth@ == copies(true, n)
    &&& f.ratio_factor@ == copies(true, n)
    &&& f.profile_order@ == s.profile_order@
    &&& f.n_para@ == s.n_para@
    &&& f.delta == Some(f.n_qubits)
    &&& f.sigma_delta matches Some(d) && d@ == copies(true, n)
    &&& f.coupling_problem is None
    &&& f.sigma_j == Some(true)
    &&& f.coupling_type matches Some(c) && c@ == s.coupling_type@
    &&& f.anharmonicities == (if l.anharmonic { Some(f.n_qubits) } else { None })
    &&& f.stark_shift_coeffs is None
    &&& f.zz_crosstalk is None
    &&& !f.dissipative
    &&& f.t1 is None
    &&& f.t2 is None
    &&& f.initial_states@ == l.initial_states@
    &&& (l.target matches DefaultTarget::Axis(a) ==> f.targets == TargetFacts::Axis(a))
    &&& (l.target matches DefaultTarget::Gate(g) ==> f.targets == TargetFacts::Gate(g))
    &&& f.h0_snapshots == s.h0_snapshots
    &&& f.omega_r_snapshots == s.omega_r_snapshots
    &&& f.algorithm@ == s.algorithm@
    &&& f.max_iter == s.max_iter
    &&& f.targ_fid
    &&& f.compute_resource matches Some(r) && r@ == s.compute_resource@
    &&& f.cpu_cores is None
}

/// Each qubit of a default configuration draws no problem: a Chebyshev basis of 8 functions on 100 points, the
/// `gn` envelope of order 1, broadband coverage, a sweep width that is not negative.
proof fn lemma_default_qubits(f: ConfigFacts, s: DefaultSettings, k: nat)
    requires
        k <= f.n_qubits,
        is_default_settings(s, f.n_qubits as nat),
        f.point_in_pulse@ == s.point_in_pulse@,
        f.wf_type@ == s.wf_type@,
        f.wf_mode@ == s.wf_mode@,
        f.amplitude_envelope@ == s.amplitude_envelope@,
        f.amplitude_order@ == s.amplitude_order@,
        f.coverage@ == s.coverage@,
        f.n_para@ == s.n_para@,
        f.sw@ == copies(true, f.n_qubits as nat),
        f.n_qubits > 0,
    ensures
        qubits_problems(f, k) == Seq::<Seq<char>>::empty(),
    decreases k,
{
    if k > 0 {
        lemma_default_qubits(f, s, (k - 1) as nat);
        let q = k - 1;
        let n = f.n_qubits as nat;
        assert(strings(s.wf_type@).len() == s.wf_type@.len());
        assert(strings(s.wf_type@)[q] == s.wf_type@[q]@);
        assert(strings(s.wf_type@)[q] == "cheb"@);
        assert(f.wf_type@[q]@ == "cheb"@);
        assert(spec_basis_of("cheb"@) == Some(BasisKind::Chebyshev));
        assert(f.wf_mode@[q] == WaveformMode::Cart);
        assert(f.n_para@[q] == 16usize);
        assert(f.point_in_pulse@[0] == 100usize);
        assert(BasisKind::Chebyshev.spec_n_para_ok(16, WaveformMode::Cart));
        assert(BasisKind::Chebyshev.spec_columns(16, WaveformMode::Cart) == 8);
        assert(strings(s.amplitude_envelope@).len() == s.amplitude_envelope@.len());
        assert(strings(s.amplitude_envelope@)[q] == s.amplitude_envelope@[q]@);
        assert(strings(s.amplitude_envelope@)[q] == "gn"@);
        assert(f.amplitude_envelope@[q]@ == "gn"@);
        assert(spec_envelope_names()[0] == "gn"@);
        assert(spec_envelope_names().contains("gn"@));
        assert(f.amplitude_order@[q] == 1u32);
        assert(f.coverage@[q] == Coverage::Broadband);
        assert(f.sw@[q]);
        assert(qubit_problems(f, q) =~= Seq::<Seq<char>>::empty());
        assert(qubits_problems(f, k) =~= qubits_problems(f, q as nat) + qubit_problems(f, q));
    }
}

/// The model and per-qubit list checks of a default configuration draw no problem.
proof fn lemma_default_shape(f: ConfigFacts, name: Seq<char>, l: DefaultLayout, s: DefaultSettings)
    requires
        spec_family(name) is Some,
        is_default_settings(s, f.n_qubits as nat),
        is_default_facts(f, name, l, s),
        f.n_qubits > 0,
        l.anharmonic ==> name == "duffing_transmon"@,
    ensures
        !crate::config::validate::length_problems(f),
        shape_problems(f) == Seq::<Seq<char>>::empty(),
{
    reveal(len_problem);
    reveal(sign_problem);
    let n = f.n_qubits as nat;
    assert(spec_model_names()[0] == "spin_chain"@);
    assert(spec_model_names()[1] == "superconducting"@);
    assert(spec_model_names()[2] == "duffing_transmon"@);
    assert(spec_model_names().contains(name));
    assert(f.wf_type@.len() == strings(s.wf_type@).len());
    assert(f.amplitude_envelope@.len() == strings(s.amplitude_envelope@).len());
    assert(shape_problems(f) =~= Seq::<Seq<char>>::empty());
}

/// The model-specific checks of a default configuration draw no problem: spin chains take the `XY` coupling,
/// two-level transmons have no optional lists, and three-level transmons have one anharmonicity per qubit.
proof fn lemma_default_model(f: ConfigFacts, name: Seq<char>, l: DefaultLayout, s: DefaultSettings)
    requires
        spec_family(name) is Some,
        is_default_settings(s, f.n_qubits as nat),
        is_default_facts(f, name, l, s),
        f.n_qubits > 0,
        l.anharmonic == (name == "duffing_transmon"@),
    ensures
        model_problems(f) == Seq::<Seq<char>>::empty(),
{
    reveal(len_problem);
    reveal_strlit("XY");
    reveal_strlit("superconducting");
    reveal_strlit("duffing_transmon");
    reveal_strlit("spin_chain");
    let xy = "XY"@;
    assert(crate::text::is_ascii(xy));
    assert(crate::text::ascii_upper(xy) =~= xy);
    assert(crate::text::upper_form(xy) == xy);
    assert(seq!["Z"@, "XY"@, "XYZ"@][1] == xy);
    assert(seq!["XY"@, "ZZ"@, "XY+ZZ"@][0] == xy);
    assert(model_problems(f) =~= Seq::<Seq<char>>::empty());
}

/// A model's default configuration passes every check, provided its target gate is one of the gates defined
/// for its number of qubits: `validate` over what the checks read of it finds no problem.
pub proof fn law_default_config_validates(
    name: Seq<char>,
    l: DefaultLayout,
    s: DefaultSettings,
    f: ConfigFacts,
)
    requires
        spec_family(name) is Some,
        f.n_qubits > 0,
        is_default_layout(l, spec_family(name)->0, name == "duffing_transmon"@, f.n_qubits as nat),
        is_default_settings(s, f.n_qubits as nat),
        is_default_facts(f, name, l, s),
        f.n_qubits > 1 ==> strings(f.gate_names@).contains(spec_family(name)->0.spec_gate()),
    ensures
        spec_validate(f) == Seq::<Seq<char>>::empty(),
{
    let family = spec_family(name)->0;
    lemma_default_shape(f, name, l, s);
    lemma_default_qubits(f, s, f.n_qubits as nat);
    lemma_default_model(f, name, l, s);
    law_default_states_pass(l, family, name == "duffing_transmon"@, f);
    assert(f.point_in_pulse@[0] == 100usize);
    assert(f.pulse_duration@[0]);
    assert(dissipation_problems(f) == Seq::<Seq<char>>::empty());
    assert(spec_optimizer_names()[0] == "l-bfgs"@);
    reveal_strlit("cpu");
    reveal_strlit("gpu");
    assert(optimisation_problems(f) =~= Seq::<Seq<char>>::empty());
    assert(spec_validate(f) =~= Seq::<Seq<char>>::empty());
}


/// In a default layout of three or more qubits, every qubit from the third on starts along `-Z`, whatever the
/// model family: only the first two axes depend on the family.
pub proof fn law_later_qubits_start_along_minus_z(l: DefaultLayout, family: Family, anharmonic: bool, n: nat)
    requires
        is_default_layout(l, family, anharmonic, n),
        n >= 3,
    ensures
        forall|q: int| 2 <= q < n ==> (#[trigger] l.initial_states@[0]@[q])@ == "-Z"@,
{
    assert forall|q: int| 2 <= q < n implies (#[trigger] l.initial_states@[0]@[q])@ == "-Z"@ by {
        assert(l.initial_states@[0]@[q]@ == default_axis_of(family, n, q));
    }
}

} // verus!
