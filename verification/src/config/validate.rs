//! Configuration checks.  Each problem is one sentence naming the field (and qubit, where relevant), so an
//! interface can list them all at once.
//!
//! The checks read a configuration through [`ConfigFacts`]: its lengths, names and integers as they are, and for
//! each floating-point entry the answer to the one question a check asks of it.

use vstd::prelude::*;

use super::{Coverage, ROTATION_AXES, STATE_AXES, WaveformMode};
use crate::basis::{basis, envelope_names, spec_basis_names, spec_basis_of, spec_envelope_names};
use crate::hamiltonian::spec_model_names;
use crate::optim::{optimizer_names, spec_optimizer_names};
use vstd::seq_lib::lemma_concat_associative;

use crate::text::{
    contains_str, contains_string, decimal, decimal_string, join, join_strings, join_strs, str_eq, strings,
    strs, to_uppercase, upper_form,
};

verus! {

/// What a target list says, as the checks read it.
#[derive(Clone, Debug)]
pub enum TargetFacts {
    /// A product state per initial state: one axis name per qubit.
    Axis(Vec<Vec<String>>),
    /// A gate name per initial state.
    Gate(Vec<String>),
    /// A rotation per initial state.
    PhiBeta {
        /// Rotation axes, one per qubit.
        phi: Vec<Vec<String>>,
        /// Per rotation, whether it has one finite angle per qubit.
        beta: Vec<bool>,
    },
}

impl TargetFacts {
    /// Number of target entries.
    pub open spec fn spec_len(self) -> nat {
        match self {
            TargetFacts::Axis(v) => v@.len(),
            TargetFacts::Gate(v) => v@.len(),
            TargetFacts::PhiBeta { phi, .. } => phi@.len(),
        }
    }

    /// Number of target entries.
    pub fn len(&self) -> (n: usize)
        ensures
            n == self.spec_len(),
    {
        match self {
            TargetFacts::Axis(v) => v.len(),
            TargetFacts::Gate(v) => v.len(),
            TargetFacts::PhiBeta { phi, .. } => phi.len(),
        }
    }
}

/// What the checks read of a configuration.  Lists of `bool` stand for floating-point lists of the same length:
/// each entry says whether that entry passes its check.
#[derive(Clone, Debug)]
pub struct ConfigFacts {
    /// Number of qubits.
    pub n_qubits: usize,
    /// The model name, if the configuration names one.
    pub hamiltonian_type: Option<String>,
    /// Length of `Omega_R_max`.
    pub omega_r_max: usize,
    /// Per `sigma_Omega_R_max` entry: zero or positive, and finite.
    pub sigma_omega_r_max: Vec<bool>,
    /// Per `pulse_duration` entry: positive and finite.
    pub pulse_duration: Vec<bool>,
    /// Points in the pulse, per qubit.
    pub point_in_pulse: Vec<usize>,
    /// Basis names, per qubit.
    pub wf_type: Vec<String>,
    /// Waveform modes, per qubit.
    pub wf_mode: Vec<WaveformMode>,
    /// Envelope names, per qubit.
    pub amplitude_envelope: Vec<String>,
    /// Envelope orders, per qubit.
    pub amplitude_order: Vec<u32>,
    /// Offset coverages, per qubit.
    pub coverage: Vec<Coverage>,
    /// Per `sw` entry: a number, and not negative.
    pub sw: Vec<bool>,
    /// Length of `pulse_offset`.
    pub pulse_offset: usize,
    /// Per `pulse_bandwidth` entry: a number, and not negative.
    pub pulse_bandwidth: Vec<bool>,
    /// Per `ratio_factor` entry: between 0 and 1.
    pub ratio_factor: Vec<bool>,
    /// Super-Gaussian orders, per qubit.
    pub profile_order: Vec<u32>,
    /// Coefficient counts, per qubit.
    pub n_para: Vec<usize>,
    /// Length of `Delta`, if present.
    pub delta: Option<usize>,
    /// Per `sigma_Delta` entry, if present: zero or positive, and finite.
    pub sigma_delta: Option<Vec<bool>>,
    /// What is wrong with the coupling matrix `J`, if it is present and something is.
    pub coupling_problem: Option<String>,
    /// Whether `sigma_J`, if present, is zero or positive and finite.
    pub sigma_j: Option<bool>,
    /// The coupling type, if present.
    pub coupling_type: Option<String>,
    /// Length of `anharmonicities`, if present.
    pub anharmonicities: Option<usize>,
    /// Length of `stark_shift_coeffs`, if present.
    pub stark_shift_coeffs: Option<usize>,
    /// Row lengths of `zz_crosstalk`, if present.
    pub zz_crosstalk: Option<Vec<usize>>,
    /// Whether T1/T2 relaxation is on.
    pub dissipative: bool,
    /// Per `T1` entry, if present: positive and finite.
    pub t1: Option<Vec<bool>>,
    /// Per `T2` entry, if present: positive and finite; and at most twice the same qubit's T1.
    pub t2: Option<Vec<(bool, bool)>>,
    /// Initial states: axis names per qubit.
    pub initial_states: Vec<Vec<String>>,
    /// The targets.
    pub targets: TargetFacts,
    /// Names of the gates available for this many qubits.
    pub gate_names: Vec<String>,
    /// Number of sampled drift Hamiltonians.
    pub h0_snapshots: usize,
    /// Number of sampled Rabi frequencies.
    pub omega_r_snapshots: usize,
    /// The optimiser name.
    pub algorithm: String,
    /// Iteration limit.
    pub max_iter: usize,
    /// Whether the target fidelity is in (0, 1].
    pub targ_fid: bool,
    /// The compute resource, if named.
    pub compute_resource: Option<String>,
    /// Thread count, if set.
    pub cpu_cores: Option<usize>,
}

// ---------------------------------------------------------------------------------------------------------------
// The problems, as sentences.
// ---------------------------------------------------------------------------------------------------------------

/// `m` if `b`, nothing otherwise.
pub open spec fn when(b: bool, m: Seq<char>) -> Seq<Seq<char>> {
    if b {
        seq![m]
    } else {
        seq![]
    }
}

/// All entries are true.
pub open spec fn all_true(v: Seq<bool>) -> bool {
    forall|i: int| 0 <= i < v.len() ==> #[trigger] v[i]
}

/// `"<field> has <got> entries for <n> qubits"` when the counts differ.
#[verifier::opaque]
pub open spec fn len_problem(field: Seq<char>, got: nat, n: nat) -> Seq<Seq<char>> {
    when(got != n, field + " has "@ + decimal(got) + " entries for "@ + decimal(n) + " qubits"@)
}

/// `"<field> must be zero or positive"` unless every entry is.
#[verifier::opaque]
pub open spec fn sign_problem(field: Seq<char>, ok: bool) -> Seq<Seq<char>> {
    when(!ok, field + " must be zero or positive"@)
}

/// The problems with the axis names of axes `0..k` of `s`.
pub open spec fn axis_name_problems(what: Seq<char>, s: Seq<Seq<char>>, allowed: Seq<Seq<char>>, k: nat) -> Seq<
    Seq<char>,
>
    decreases k,
{
    if k == 0 {
        seq![]
    } else {
        axis_name_problems(what, s, allowed, (k - 1) as nat) + when(
            !allowed.contains(s[k - 1]),
            what + ": \""@ + s[k - 1] + "\" is not one of "@ + join(allowed, ", "@),
        )
    }
}

/// The problems with one state's or rotation's axes: their count, then each name.
pub open spec fn axes_problems(what: Seq<char>, s: Seq<Seq<char>>, n: nat, allowed: Seq<Seq<char>>) -> Seq<
    Seq<char>,
> {
    if s.len() != n {
        seq![what + " has "@ + decimal(s.len()) + " axes for "@ + decimal(n) + " qubits"@]
    } else {
        axis_name_problems(what, s, allowed, s.len())
    }
}

/// Whether any per-qubit list has the wrong length.
pub open spec fn length_problems(f: ConfigFacts) -> bool {
    let n = f.n_qubits as nat;
    ||| f.omega_r_max != n
    ||| f.sigma_omega_r_max@.len() != n
    ||| f.pulse_duration@.len() != n
    ||| f.point_in_pulse@.len() != n
    ||| f.wf_type@.len() != n
    ||| f.wf_mode@.len() != n
    ||| f.amplitude_envelope@.len() != n
    ||| f.amplitude_order@.len() != n
    ||| f.coverage@.len() != n
    ||| f.sw@.len() != n
    ||| f.pulse_offset != n
    ||| f.pulse_bandwidth@.len() != n
    ||| f.ratio_factor@.len() != n
    ||| f.profile_order@.len() != n
    ||| f.n_para@.len() != n
    ||| (f.delta matches Some(d) && d != n)
    ||| (f.sigma_delta matches Some(d) && d@.len() != n)
}

/// The model-name check.
pub open spec fn model_name_problems(f: ConfigFacts) -> Seq<Seq<char>> {
    match f.hamiltonian_type {
        Some(m) => when(
            !spec_model_names().contains(m@),
            "hamiltonian_type \""@ + m@ + "\" is not one of "@ + join(spec_model_names(), ", "@),
        ),
        None => seq![],
    }
}

/// The `sigma_Delta` checks, when it is present.
pub open spec fn sigma_delta_problems(f: ConfigFacts) -> Seq<Seq<char>> {
    match f.sigma_delta {
        Some(d) => len_problem("sigma_Delta"@, d@.len(), f.n_qubits as nat) + sign_problem(
            "sigma_Delta"@,
            all_true(d@),
        ),
        None => seq![],
    }
}

/// The model check and the per-qubit list checks, which come first.
pub open spec fn shape_problems(f: ConfigFacts) -> Seq<Seq<char>> {
    let n = f.n_qubits as nat;
    model_name_problems(f) + len_problem("Omega_R_max"@, f.omega_r_max as nat, n) + len_problem(
        "sigma_Omega_R_max"@,
        f.sigma_omega_r_max@.len(),
        n,
    ) + len_problem("pulse_duration"@, f.pulse_duration@.len(), n) + len_problem(
        "point_in_pulse"@,
        f.point_in_pulse@.len(),
        n,
    ) + len_problem("wf_type"@, f.wf_type@.len(), n) + len_problem("wf_mode"@, f.wf_mode@.len(), n)
        + len_problem("amplitude_envelope"@, f.amplitude_envelope@.len(), n) + len_problem(
        "amplitude_order"@,
        f.amplitude_order@.len(),
        n,
    ) + len_problem("coverage"@, f.coverage@.len(), n) + len_problem("sw"@, f.sw@.len(), n) + len_problem(
        "pulse_offset"@,
        f.pulse_offset as nat,
        n,
    ) + len_problem("pulse_bandwidth"@, f.pulse_bandwidth@.len(), n) + len_problem(
        "ratio_factor"@,
        f.ratio_factor@.len(),
        n,
    ) + len_problem("profile_order"@, f.profile_order@.len(), n) + len_problem("n_para"@, f.n_para@.len(), n)
        + (match f.delta {
        Some(d) => len_problem("Delta"@, d as nat, n),
        None => seq![],
    }) + sigma_delta_problems(f) + sign_problem("sigma_Omega_R_max"@, all_true(f.sigma_omega_r_max@))
        + (match f.coupling_problem {
        Some(e) => seq![e@],
        None => seq![],
    }) + when(f.sigma_j == Some(false), "sigma_J must be zero or positive"@)
}

/// `"qubit <q + 1>: "`.
pub open spec fn qubit_prefix(q: nat) -> Seq<char> {
    "qubit "@ + decimal(q + 1) + ": "@
}

/// The problems with qubit `q`'s basis: its name, its coefficient count, and its column count against the
/// points in the pulse.
pub open spec fn basis_problems(f: ConfigFacts, q: int) -> Seq<Seq<char>> {
    let name = f.wf_type@[q]@;
    let n_pulse = f.point_in_pulse@[0] as nat;
    match spec_basis_of(name) {
        None => seq![
            qubit_prefix(q as nat) + "wf_type \""@ + name + "\" is not one of "@ + join(
                spec_basis_names(),
                ", "@,
            ),
        ],
        Some(b) => {
            let mode = f.wf_mode@[q];
            let n_para = f.n_para@[q] as nat;
            if !b.spec_n_para_ok(n_para, mode) {
                seq![qubit_prefix(q as nat) + b.n_para_message(n_para, mode)]
            } else {
                when(
                    b.spec_columns(n_para, mode) > n_pulse,
                    qubit_prefix(q as nat) + decimal(b.spec_columns(n_para, mode))
                        + " basis functions need at least as many points in the pulse (point_in_pulse = "@
                        + decimal(n_pulse) + ")"@,
                )
            }
        },
    }
}

/// All the problems with qubit `q`'s settings.
pub open spec fn qubit_problems(f: ConfigFacts, q: int) -> Seq<Seq<char>> {
    let p = qubit_prefix(q as nat);
    let envelope = f.amplitude_envelope@[q]@;
    let selective = f.coverage@[q] == Coverage::Selective || f.coverage@[q] == Coverage::BandSelective;
    basis_problems(f, q) + when(
        !spec_envelope_names().contains(envelope),
        p + "amplitude_envelope \""@ + envelope + "\" is not one of "@ + join(spec_envelope_names(), ", "@),
    ) + when(f.amplitude_order@[q] == 0, p + "amplitude_order must be at least 1"@) + (if selective {
        when(!f.ratio_factor@[q], p + "ratio_factor must be between 0 and 1"@) + when(
            !f.pulse_bandwidth@[q],
            p + "pulse_bandwidth must not be negative"@,
        )
    } else {
        seq![]
    }) + when(!f.sw@[q], p + "sw must not be negative"@)
}

/// The problems with qubits `0..k`.
pub open spec fn qubits_problems(f: ConfigFacts, k: nat) -> Seq<Seq<char>>
    decreases k,
{
    if k == 0 {
        seq![]
    } else {
        qubits_problems(f, (k - 1) as nat) + qubit_problems(f, k - 1)
    }
}

/// The model-specific problems.
pub open spec fn model_problems(f: ConfigFacts) -> Seq<Seq<char>> {
    let n = f.n_qubits as nat;
    if f.hamiltonian_type matches Some(m) && m@ == "superconducting"@ {
        let coupling = match f.coupling_type {
            Some(c) => when(
                n > 1 && !seq!["XY"@, "ZZ"@, "XY+ZZ"@].contains(c@),
                "coupling_type \""@ + c@ + "\" is not one of XY, ZZ, XY+ZZ"@,
            ),
            None => seq![],
        };
        let anharmonicities = match f.anharmonicities {
            Some(a) => len_problem("anharmonicities"@, a as nat, n),
            None => seq![],
        };
        let stark = match f.stark_shift_coeffs {
            Some(a) => len_problem("stark_shift_coeffs"@, a as nat, n),
            None => seq![],
        };
        let zz = match f.zz_crosstalk {
            Some(rows) => when(
                rows@.len() != n || exists|i: int| 0 <= i < rows@.len() && rows@[i] != n,
                "zz_crosstalk must be a "@ + decimal(n) + "x"@ + decimal(n) + " matrix"@,
            ),
            None => seq![],
        };
        coupling + anharmonicities + stark + zz
    } else if f.hamiltonian_type matches Some(m) && m@ == "duffing_transmon"@ {
        let anharmonicities = match f.anharmonicities {
            None => seq!["the duffing_transmon model needs anharmonicities"@],
            Some(a) => len_problem("anharmonicities"@, a as nat, n),
        };
        anharmonicities + when(
            f.dissipative,
            "dissipative mode is not supported for the duffing_transmon model"@,
        )
    } else {
        match f.coupling_type {
            Some(c) => when(
                n > 1 && !seq!["Z"@, "XY"@, "XYZ"@].contains(upper_form(c@)),
                "coupling_type \""@ + c@ + "\" is not one of Z, XY, XYZ"@,
            ),
            None => seq![],
        }
    }
}

/// The relaxation-time problems of qubits `0..k`.
pub open spec fn relaxation_problems(t1: Seq<bool>, t2: Seq<(bool, bool)>, k: nat) -> Seq<Seq<char>>
    decreases k,
{
    if k == 0 {
        seq![]
    } else {
        let q = k - 1;
        let p = qubit_prefix(q as nat);
        relaxation_problems(t1, t2, (k - 1) as nat) + when(!t1[q], p + "T1 must be positive and finite"@) + (
        if !t2[q].0 {
            seq![p + "T2 must be positive and finite"@]
        } else {
            when(!t2[q].1, p + "T2 must not exceed 2·T1"@)
        })
    }
}

/// The dissipation problems.
pub open spec fn dissipation_problems(f: ConfigFacts) -> Seq<Seq<char>> {
    let n = f.n_qubits as nat;
    if !f.dissipative {
        seq![]
    } else if f.t1 matches Some(t1) && f.t2 matches Some(t2) && t1@.len() == n && t2@.len() == n {
        relaxation_problems(f.t1->0@, f.t2->0@, n)
    } else {
        seq!["dissipative mode needs T1 and T2 for each of the "@ + decimal(n) + " qubits"@]
    }
}

/// The axes problems of the states `0..k` of `states`, each named `<label> <i + 1><suffix>`.
pub open spec fn states_problems(
    label: Seq<char>,
    suffix: Seq<char>,
    states: Seq<Seq<Seq<char>>>,
    n: nat,
    allowed: Seq<Seq<char>>,
    k: nat,
) -> Seq<Seq<char>>
    decreases k,
{
    if k == 0 {
        seq![]
    } else {
        states_problems(label, suffix, states, n, allowed, (k - 1) as nat) + axes_problems(
            label + decimal(k as nat) + suffix,
            states[k - 1],
            n,
            allowed,
        )
    }
}

/// The views of a list of string lists.
pub open spec fn string_lists(v: Seq<Vec<String>>) -> Seq<Seq<Seq<char>>> {
    v.map_values(|s: Vec<String>| strings(s@))
}

/// Problems with gates `0..k`.
pub open spec fn gate_problems(gates: Seq<Seq<char>>, valid: Seq<Seq<char>>, n: nat, k: nat) -> Seq<Seq<char>>
    decreases k,
{
    if k == 0 {
        seq![]
    } else {
        let g = gates[k - 1];
        gate_problems(gates, valid, n, (k - 1) as nat) + (if valid.contains(g) {
            seq![]
        } else if valid.len() == 0 {
            seq!["gate targets are not available for "@ + decimal(n) + " qubits"@]
        } else {
            seq!["gate \""@ + g + "\" is not one of "@ + join(valid, ", "@) + " for "@ + decimal(n) + " qubits"@]
        })
    }
}

/// The angle problems of rotations `0..k`.
pub open spec fn angle_problems(beta: Seq<bool>, n: nat, k: nat) -> Seq<Seq<char>>
    decreases k,
{
    if k == 0 {
        seq![]
    } else {
        angle_problems(beta, n, (k - 1) as nat) + when(
            !beta[k - 1],
            "rotation "@ + decimal(k as nat) + " needs "@ + decimal(n) + " finite angles"@,
        )
    }
}

/// The problems with the targets themselves.
pub open spec fn target_problems(f: ConfigFacts) -> Seq<Seq<char>> {
    let n = f.n_qubits as nat;
    match f.targets {
        TargetFacts::Axis(axes) => {
            let a = string_lists(axes@);
            states_problems("target "@, seq![], a, n, strs(STATE_AXES@), a.len())
        },
        TargetFacts::Gate(gates) => gate_problems(strings(gates@), strings(f.gate_names@), n, gates@.len()),
        TargetFacts::PhiBeta { phi, beta } => {
            let p = string_lists(phi@);
            when(phi@.len() != beta@.len(), "Phi and Beta must have the same number of entries"@)
                + states_problems("rotation "@, " axes"@, p, n, strs(ROTATION_AXES@), p.len())
                + angle_problems(beta@, n, beta@.len())
        },
    }
}

/// The problems with the initial states and the targets.
pub open spec fn state_problems(f: ConfigFacts) -> Seq<Seq<char>> {
    let n = f.n_qubits as nat;
    let states = string_lists(f.initial_states@);
    let n_init = states.len();
    let count = when(f.targets.spec_len() != n_init, decimal(f.targets.spec_len()) + " target entries for "@
        + decimal(n_init) + " initial states"@);
    when(n_init == 0, "at least one initial state is needed"@) + states_problems(
        "initial state "@,
        seq![],
        states,
        n,
        strs(STATE_AXES@),
        n_init,
    ) + count + target_problems(f)
}

/// The problems with the optimiser's limits.
pub open spec fn limit_problems(f: ConfigFacts) -> Seq<Seq<char>> {
    when(f.h0_snapshots == 0, "H0_snapshots must be at least 1"@) + when(
        f.omega_r_snapshots == 0,
        "Omega_R_snapshots must be at least 1"@,
    ) + when(f.max_iter == 0, "max_iter must be at least 1"@) + when(
        !f.targ_fid,
        "targ_fid must be in (0, 1]"@,
    )
}

/// The problems with the optimiser's and the machine's names.
pub open spec fn setting_problems(f: ConfigFacts) -> Seq<Seq<char>> {
    when(
        !spec_optimizer_names().contains(f.algorithm@),
        "algorithm \""@ + f.algorithm@ + "\" is not supported; choose one of "@ + join(
            spec_optimizer_names(),
            ", "@,
        ),
    ) + (match f.compute_resource {
        Some(r) => when(r@ != "cpu"@ && r@ != "gpu"@, "compute_resource \""@ + r@ + "\" is not cpu or gpu"@),
        None => seq![],
    }) + when(f.cpu_cores == Some(0usize), "cpu_cores must be at least 1"@)
}

/// The optimiser-setting problems.
pub open spec fn optimisation_problems(f: ConfigFacts) -> Seq<Seq<char>> {
    limit_problems(f) + setting_problems(f)
}

/// Every problem with a configuration, in order.  Empty means it can run.
pub open spec fn spec_validate(f: ConfigFacts) -> Seq<Seq<char>> {
    if f.n_qubits == 0 {
        seq!["at least one qubit is needed"@]
    } else if length_problems(f) {
        shape_problems(f)
    } else {
        shape_problems(f) + when(f.point_in_pulse@[0] < 2, "point_in_pulse must be at least 2"@) + when(
            !f.pulse_duration@[0],
            "pulse_duration must be positive"@,
        ) + qubits_problems(f, f.n_qubits as nat) + model_problems(f) + dissipation_problems(f)
            + state_problems(f) + optimisation_problems(f)
    }
}

// ---------------------------------------------------------------------------------------------------------------
// The checks.
// ---------------------------------------------------------------------------------------------------------------

/// The problems found so far, and whether any per-qubit list had the wrong length.
pub struct Checks(pub Vec<String>, pub bool);

impl Checks {
    /// The problems found so far, as sentences.
    pub open spec fn problems(&self) -> Seq<Seq<char>> {
        strings(self.0@)
    }

    /// No problems yet.
    pub fn new() -> (c: Checks)
        ensures
            c.problems() == Seq::<Seq<char>>::empty(),
            !c.1,
    {
        let c = Checks(Vec::new(), false);
        assert(c.problems() =~= Seq::<Seq<char>>::empty());
        c
    }

    /// Record a problem.
    pub fn push(&mut self, s: String)
        ensures
            final(self).problems() == old(self).problems().push(s@),
            final(self).1 == old(self).1,
    {
        let ghost before = self.0@;
        self.0.push(s);
        assert(strings(self.0@) =~= strings(before).push(s@));
    }

    /// Record that `field` has `got` entries where `n` are needed, if it has.
    pub fn len(&mut self, field: &str, got: usize, n: usize)
        ensures
            final(self).problems() == old(self).problems() + len_problem(field@, got as nat, n as nat),
            final(self).1 == (old(self).1 || got != n),
    {
        reveal(len_problem);
        if got != n {
            self.1 = true;
            let mut s = String::from_str(field);
            s.append(" has ");
            s.append(decimal_string(got).as_str());
            s.append(" entries for ");
            s.append(decimal_string(n).as_str());
            s.append(" qubits");
            self.push(s);
        } else {
            assert(old(self).problems() + len_problem(field@, got as nat, n as nat) =~= old(self).problems());
        }
    }

    /// [`len`](Self::len) for a list that may be absent, given by its length.
    pub fn optional_len(&mut self, field: &str, v: Option<usize>, n: usize)
        ensures
            final(self).problems() == old(self).problems() + match v {
                Some(got) => len_problem(field@, got as nat, n as nat),
                None => seq![],
            },
            final(self).1 == (old(self).1 || (v matches Some(got) && got != n)),
    {
        match v {
            Some(got) => self.len(field, got, n),
            None => {
                assert(old(self).problems() + Seq::<Seq<char>>::empty() =~= old(self).problems());
            },
        }
    }

    /// Whether a per-qubit list had the wrong length.
    pub fn has_length_problems(&self) -> (b: bool)
        ensures
            b == self.1,
    {
        self.1
    }

    /// Record that `field` must be zero or positive, unless every entry's check passed.
    pub fn non_negative(&mut self, field: &str, v: &[bool])
        ensures
            final(self).problems() == old(self).problems() + sign_problem(field@, all_true(v@)),
            final(self).1 == old(self).1,
    {
        reveal(sign_problem);
        let mut all = true;
        let mut i: usize = 0;
        while i < v.len()
            invariant
                i <= v@.len(),
                all == forall|k: int| 0 <= k < i ==> #[trigger] v@[k],
            decreases v@.len() - i,
        {
            if !v[i] {
                all = false;
            }
            i = i + 1;
        }
        if !all {
            let mut s = String::from_str(field);
            s.append(" must be zero or positive");
            self.push(s);
        } else {
            assert(old(self).problems() + sign_problem(field@, all_true(v@)) =~= old(self).problems());
        }
    }

    /// Record the problems with one state's or rotation's axes `s`: a count other than `n`, or else each name not
    /// in `allowed`.
    pub fn axes(&mut self, what: &str, s: &Vec<String>, n: usize, allowed: &[&str])
        ensures
            final(self).problems() == old(self).problems() + axes_problems(
                what@,
                strings(s@),
                n as nat,
                strs(allowed@),
            ),
            final(self).1 == old(self).1,
    {
        if s.len() != n {
            let mut m = String::from_str(what);
            m.append(" has ");
            m.append(decimal_string(s.len()).as_str());
            m.append(" axes for ");
            m.append(decimal_string(n).as_str());
            m.append(" qubits");
            self.push(m);
            return;
        }
        let ghost start = self.problems();
        let mut i: usize = 0;
        while i < s.len()
            invariant
                i <= s@.len(),
                self.problems() == start + axis_name_problems(what@, strings(s@), strs(allowed@), i as nat),
                self.1 == old(self).1,
            decreases s@.len() - i,
        {
            let ghost before = self.problems();
            assert(strings(s@)[i as int] == s@[i as int]@);
            if !contains_str(allowed, s[i].as_str()) {
                let mut m = String::from_str(what);
                m.append(": \"");
                m.append(s[i].as_str());
                m.append("\" is not one of ");
                m.append(join_strs(allowed, ", ").as_str());
                self.push(m);
            }
            assert(self.problems() =~= start + axis_name_problems(
                what@,
                strings(s@),
                strs(allowed@),
                (i + 1) as nat,
            ));
            i = i + 1;
        }
    }
}

/// `(start + acc) + p` is `start + (acc + p)`.
proof fn lemma_append(start: Seq<Seq<char>>, acc: Seq<Seq<char>>, p: Seq<Seq<char>>)
    ensures
        (start + acc) + p == start + (acc + p),
{
    lemma_concat_associative(start, acc, p);
}

/// The model check and the per-qubit list checks.
#[verifier::rlimit(80)]
fn shape_checks(f: &ConfigFacts, v: &mut Checks)
    ensures
        final(v).problems() == old(v).problems() + shape_problems(*f),
        final(v).1 == (old(v).1 || length_problems(*f)),
{
    let ghost start = v.problems();
    let n = f.n_qubits;
    let names = crate::hamiltonian::model_names();
    match &f.hamiltonian_type {
        Some(m) => {
            if !contains_str(names, m.as_str()) {
                let mut s = String::from_str("hamiltonian_type \"");
                s.append(m.as_str());
                s.append("\" is not one of ");
                s.append(join_strs(names, ", ").as_str());
                v.push(s);
            } else {
                assert(v.problems() =~= start + model_name_problems(*f));
            }
        },
        None => {
            assert(v.problems() =~= start + model_name_problems(*f));
        },
    }
    let ghost mut acc = model_name_problems(*f);
    let ghost nn = n as nat;
    v.len("Omega_R_max", f.omega_r_max, n);
    proof { let p = len_problem("Omega_R_max"@, f.omega_r_max as nat, nn); lemma_append(start, acc, p); acc = acc + p; }
    v.len("sigma_Omega_R_max", f.sigma_omega_r_max.len(), n);
    proof { let p = len_problem("sigma_Omega_R_max"@, f.sigma_omega_r_max@.len(), nn); lemma_append(start, acc, p); acc = acc + p; }
    v.len("pulse_duration", f.pulse_duration.len(), n);
    proof { let p = len_problem("pulse_duration"@, f.pulse_duration@.len(), nn); lemma_append(start, acc, p); acc = acc + p; }
    v.len("point_in_pulse", f.point_in_pulse.len(), n);
    proof { let p = len_problem("point_in_pulse"@, f.point_in_pulse@.len(), nn); lemma_append(start, acc, p); acc = acc + p; }
    v.len("wf_type", f.wf_type.len(), n);
    proof { let p = len_problem("wf_type"@, f.wf_type@.len(), nn); lemma_append(start, acc, p); acc = acc + p; }
    v.len("wf_mode", f.wf_mode.len(), n);
    proof { let p = len_problem("wf_mode"@, f.wf_mode@.len(), nn); lemma_append(start, acc, p); acc = acc + p; }
    v.len("amplitude_envelope", f.amplitude_envelope.len(), n);
    proof { let p = len_problem("amplitude_envelope"@, f.amplitude_envelope@.len(), nn); lemma_append(start, acc, p); acc = acc + p; }
    v.len("amplitude_order", f.amplitude_order.len(), n);
    proof { let p = len_problem("amplitude_order"@, f.amplitude_order@.len(), nn); lemma_append(start, acc, p); acc = acc + p; }
    v.len("coverage", f.coverage.len(), n);
    proof { let p = len_problem("coverage"@, f.coverage@.len(), nn); lemma_append(start, acc, p); acc = acc + p; }
    v.len("sw", f.sw.len(), n);
    proof { let p = len_problem("sw"@, f.sw@.len(), nn); lemma_append(start, acc, p); acc = acc + p; }
    v.len("pulse_offset", f.pulse_offset, n);
    proof { let p = len_problem("pulse_offset"@, f.pulse_offset as nat, nn); lemma_append(start, acc, p); acc = acc + p; }
    v.len("pulse_bandwidth", f.pulse_bandwidth.len(), n);
    proof { let p = len_problem("pulse_bandwidth"@, f.pulse_bandwidth@.len(), nn); lemma_append(start, acc, p); acc = acc + p; }
    v.len("ratio_factor", f.ratio_factor.len(), n);
    proof { let p = len_problem("ratio_factor"@, f.ratio_factor@.len(), nn); lemma_append(start, acc, p); acc = acc + p; }
    v.len("profile_order", f.profile_order.len(), n);
    proof { let p = len_problem("profile_order"@, f.profile_order@.len(), nn); lemma_append(start, acc, p); acc = acc + p; }
    v.len("n_para", f.n_para.len(), n);
    proof { let p = len_problem("n_para"@, f.n_para@.len(), nn); lemma_append(start, acc, p); acc = acc + p; }
    v.optional_len("Delta", f.delta, n);
    proof {
        let p = match f.delta {
            Some(d) => len_problem("Delta"@, d as nat, nn),
            None => seq![],
        };
        lemma_append(start, acc, p);
        acc = acc + p;
    }
    let ghost before = v.problems();
    match &f.sigma_delta {
        Some(d) => {
            v.len("sigma_Delta", d.len(), n);
            v.non_negative("sigma_Delta", d.as_slice());
            proof {
                lemma_append(before, len_problem("sigma_Delta"@, d@.len(), nn), sign_problem("sigma_Delta"@, all_true(d@)));
            }
        },
        None => {
            assert(v.problems() =~= before + sigma_delta_problems(*f));
        },
    }
    proof { let p = sigma_delta_problems(*f); lemma_append(start, acc, p); acc = acc + p; }
    v.non_negative("sigma_Omega_R_max", f.sigma_omega_r_max.as_slice());
    proof { let p = sign_problem("sigma_Omega_R_max"@, all_true(f.sigma_omega_r_max@)); lemma_append(start, acc, p); acc = acc + p; }
    let ghost before = v.problems();
    match &f.coupling_problem {
        Some(e) => v.push(e.clone()),
        None => {
            assert(v.problems() =~= before + seq![]);
        },
    }
    proof {
        let p: Seq<Seq<char>> = if f.coupling_problem is Some {
            seq![f.coupling_problem->0@]
        } else {
            seq![]
        };
        assert(v.problems() =~= before + p);
        lemma_append(start, acc, p);
        acc = acc + p;
    }
    let ghost before = v.problems();
    if f.sigma_j == Some(false) {
        v.push(String::from_str("sigma_J must be zero or positive"));
    }
    proof {
        let p = when(f.sigma_j == Some(false), "sigma_J must be zero or positive"@);
        assert(v.problems() =~= before + p);
        lemma_append(start, acc, p);
        acc = acc + p;
    }
    assert(acc == shape_problems(*f));
}

/// `"qubit <q + 1>: "`.
fn qubit_prefix_string(q: usize) -> (s: String)
    requires
        q < usize::MAX,
    ensures
        s@ == qubit_prefix(q as nat),
{
    let mut s = String::from_str("qubit ");
    s.append(decimal_string(q + 1).as_str());
    s.append(": ");
    s
}

/// `prefix` followed by `rest`.
fn prefixed(prefix: &String, rest: &str) -> (s: String)
    ensures
        s@ == prefix@ + rest@,
{
    let mut s = prefix.clone();
    s.append(rest);
    s
}

/// Qubit `q`'s basis checks.
fn basis_checks(f: &ConfigFacts, v: &mut Checks, q: usize)
    requires
        f.n_qubits > 0,
        !length_problems(*f),
        q < f.n_qubits,
    ensures
        final(v).problems() == old(v).problems() + basis_problems(*f, q as int),
        final(v).1 == old(v).1,
{
    let ghost start = v.problems();
    let name = &f.wf_type[q];
    let n_pulse = f.point_in_pulse[0];
    let prefix = qubit_prefix_string(q);
    match basis(name.as_str()) {
        Err(_) => {
            let mut s = prefix;
            s.append("wf_type \"");
            s.append(name.as_str());
            s.append("\" is not one of ");
            s.append(join_strs(crate::basis::basis_names(), ", ").as_str());
            v.push(s);
        },
        Ok(b) => {
            let mode = f.wf_mode[q];
            let n_para = f.n_para[q];
            match b.check_n_para(n_para, mode) {
                Err(e) => {
                    v.push(prefixed(&prefix, e.as_str()));
                },
                Ok(()) => {
                    let cols = b.columns(n_para, mode);
                    if cols > n_pulse {
                        let mut s = prefix;
                        s.append(decimal_string(cols).as_str());
                        s.append(" basis functions need at least as many points in the pulse (point_in_pulse = ");
                        s.append(decimal_string(n_pulse).as_str());
                        s.append(")");
                        v.push(s);
                    } else {
                        assert(v.problems() =~= start + basis_problems(*f, q as int));
                    }
                },
            }
        },
    }
}

/// Qubit `q`'s checks.
fn qubit_checks(f: &ConfigFacts, v: &mut Checks, q: usize)
    requires
        f.n_qubits > 0,
        !length_problems(*f),
        q < f.n_qubits,
    ensures
        final(v).problems() == old(v).problems() + qubit_problems(*f, q as int),
        final(v).1 == old(v).1,
{
    let ghost start = v.problems();
    basis_checks(f, v, q);
    let ghost mut acc = basis_problems(*f, q as int);
    let prefix = qubit_prefix_string(q);
    let ghost p = prefix@;
    let envelope = &f.amplitude_envelope[q];
    let envelopes = envelope_names();
    let ghost before = v.problems();
    if !contains_str(envelopes, envelope.as_str()) {
        let mut s = prefix.clone();
        s.append("amplitude_envelope \"");
        s.append(envelope.as_str());
        s.append("\" is not one of ");
        s.append(join_strs(envelopes, ", ").as_str());
        v.push(s);
    }
    proof {
        let piece = when(
            !spec_envelope_names().contains(envelope@),
            p + "amplitude_envelope \""@ + envelope@ + "\" is not one of "@ + join(spec_envelope_names(), ", "@),
        );
        assert(v.problems() =~= before + piece);
        lemma_append(start, acc, piece);
        acc = acc + piece;
    }
    let ghost before = v.problems();
    if f.amplitude_order[q] == 0 {
        v.push(prefixed(&prefix, "amplitude_order must be at least 1"));
    }
    proof {
        let piece = when(f.amplitude_order@[q as int] == 0, p + "amplitude_order must be at least 1"@);
        assert(v.problems() =~= before + piece);
        lemma_append(start, acc, piece);
        acc = acc + piece;
    }
    let ghost before = v.problems();
    let selective = match f.coverage[q] {
        Coverage::Selective | Coverage::BandSelective => true,
        _ => false,
    };
    if selective {
        if !f.ratio_factor[q] {
            v.push(prefixed(&prefix, "ratio_factor must be between 0 and 1"));
        }
        let ghost mid = v.problems();
        if !f.pulse_bandwidth[q] {
            v.push(prefixed(&prefix, "pulse_bandwidth must not be negative"));
        }
        proof {
            let a = when(!f.ratio_factor@[q as int], p + "ratio_factor must be between 0 and 1"@);
            let b = when(!f.pulse_bandwidth@[q as int], p + "pulse_bandwidth must not be negative"@);
            assert(mid =~= before + a);
            assert(v.problems() =~= mid + b);
            lemma_append(before, a, b);
        }
    } else {
        assert(v.problems() =~= before + seq![]);
    }
    proof {
        let sel = f.coverage@[q as int] == Coverage::Selective || f.coverage@[q as int] == Coverage::BandSelective;
        let piece = if sel {
            when(!f.ratio_factor@[q as int], p + "ratio_factor must be between 0 and 1"@) + when(
                !f.pulse_bandwidth@[q as int],
                p + "pulse_bandwidth must not be negative"@,
            )
        } else {
            seq![]
        };
        assert(v.problems() == before + piece);
        lemma_append(start, acc, piece);
        acc = acc + piece;
    }
    let ghost before = v.problems();
    if !f.sw[q] {
        v.push(prefixed(&prefix, "sw must not be negative"));
    }
    proof {
        let piece = when(!f.sw@[q as int], p + "sw must not be negative"@);
        assert(v.problems() =~= before + piece);
        lemma_append(start, acc, piece);
        acc = acc + piece;
    }
    assert(acc == qubit_problems(*f, q as int));
}

/// The model-specific checks.
fn model_checks(f: &ConfigFacts, v: &mut Checks)
    ensures
        final(v).problems() == old(v).problems() + model_problems(*f),
{
    let ghost start = v.problems();
    let n = f.n_qubits;
    let ghost nn = n as nat;
    let superconducting = match &f.hamiltonian_type {
        Some(m) => str_eq(m.as_str(), "superconducting"),
        None => false,
    };
    let duffing = match &f.hamiltonian_type {
        Some(m) => str_eq(m.as_str(), "duffing_transmon"),
        None => false,
    };
    if superconducting {
        let allowed: [&str; 3] = ["XY", "ZZ", "XY+ZZ"];
        assert(strs(allowed@) =~= seq!["XY"@, "ZZ"@, "XY+ZZ"@]);
        match &f.coupling_type {
            Some(c) => {
                if n > 1 && !contains_str(&allowed, c.as_str()) {
                    let mut s = String::from_str("coupling_type \"");
                    s.append(c.as_str());
                    s.append("\" is not one of XY, ZZ, XY+ZZ");
                    v.push(s);
                }
            },
            None => {},
        }
        let ghost coupling = if f.coupling_type is Some {
            let c = f.coupling_type->0;
            when(
                nn > 1 && !seq!["XY"@, "ZZ"@, "XY+ZZ"@].contains(c@),
                "coupling_type \""@ + c@ + "\" is not one of XY, ZZ, XY+ZZ"@,
            )
        } else {
            seq![]
        };
        assert(v.problems() =~= start + coupling);
        let ghost mut acc = coupling;
        v.optional_len("anharmonicities", f.anharmonicities, n);
        proof {
            let p = match f.anharmonicities {
                Some(a) => len_problem("anharmonicities"@, a as nat, nn),
                None => seq![],
            };
            lemma_append(start, acc, p);
            acc = acc + p;
        }
        v.optional_len("stark_shift_coeffs", f.stark_shift_coeffs, n);
        proof {
            let p = match f.stark_shift_coeffs {
                Some(a) => len_problem("stark_shift_coeffs"@, a as nat, nn),
                None => seq![],
            };
            lemma_append(start, acc, p);
            acc = acc + p;
        }
        let ghost before = v.problems();
        match &f.zz_crosstalk {
            Some(rows) => {
                let mut square = rows.len() == n;
                let mut i: usize = 0;
                while i < rows.len()
                    invariant
                        i <= rows@.len(),
                        square == (rows@.len() == n && forall|k: int| 0 <= k < i ==> #[trigger] rows@[k] == n),
                    decreases rows@.len() - i,
                {
                    if rows[i] != n {
                        square = false;
                    }
                    i = i + 1;
                }
                if !square {
                    let mut s = String::from_str("zz_crosstalk must be a ");
                    s.append(decimal_string(n).as_str());
                    s.append("x");
                    s.append(decimal_string(n).as_str());
                    s.append(" matrix");
                    v.push(s);
                }
            },
            None => {},
        }
        proof {
            let p = if f.zz_crosstalk is Some {
                let rows = f.zz_crosstalk->0;
                when(
                    rows@.len() != nn || exists|i: int| 0 <= i < rows@.len() && rows@[i] != nn,
                    "zz_crosstalk must be a "@ + decimal(nn) + "x"@ + decimal(nn) + " matrix"@,
                )
            } else {
                seq![]
            };
            assert(v.problems() =~= before + p);
            lemma_append(start, acc, p);
            acc = acc + p;
        }
    } else if duffing {
        match f.anharmonicities {
            None => v.push(String::from_str("the duffing_transmon model needs anharmonicities")),
            Some(a) => v.len("anharmonicities", a, n),
        }
        let ghost first = match f.anharmonicities {
            None => seq!["the duffing_transmon model needs anharmonicities"@],
            Some(a) => len_problem("anharmonicities"@, a as nat, nn),
        };
        assert(v.problems() =~= start + first);
        let ghost before = v.problems();
        if f.dissipative {
            v.push(String::from_str("dissipative mode is not supported for the duffing_transmon model"));
        }
        proof {
            let p = when(f.dissipative, "dissipative mode is not supported for the duffing_transmon model"@);
            assert(v.problems() =~= before + p);
            lemma_append(start, first, p);
        }
    } else {
        let allowed: [&str; 3] = ["Z", "XY", "XYZ"];
        assert(strs(allowed@) =~= seq!["Z"@, "XY"@, "XYZ"@]);
        match &f.coupling_type {
            Some(c) => {
                if n > 1 {
                    let u = to_uppercase(c.as_str());
                    if !contains_str(&allowed, u.as_str()) {
                        let mut s = String::from_str("coupling_type \"");
                        s.append(c.as_str());
                        s.append("\" is not one of Z, XY, XYZ");
                        v.push(s);
                    }
                }
            },
            None => {},
        }
        assert(v.problems() =~= start + model_problems(*f));
    }
}

/// The dissipation checks.
fn dissipation_checks(f: &ConfigFacts, v: &mut Checks)
    ensures
        final(v).problems() == old(v).problems() + dissipation_problems(*f),
{
    let ghost start = v.problems();
    if !f.dissipative {
        assert(v.problems() =~= start + dissipation_problems(*f));
        return;
    }
    let n = f.n_qubits;
    match (&f.t1, &f.t2) {
        (Some(t1), Some(t2)) => {
            if t1.len() == n && t2.len() == n {
                let mut q: usize = 0;
                assert(v.problems() =~= start + relaxation_problems(t1@, t2@, 0));
                while q < n
                    invariant
                        q <= n,
                        t1@.len() == n,
                        t2@.len() == n,
                        v.problems() == start + relaxation_problems(t1@, t2@, q as nat),
                    decreases n - q,
                {
                    let ghost before = v.problems();
                    let ghost acc = relaxation_problems(t1@, t2@, q as nat);
                    let prefix = qubit_prefix_string(q);
                    if !t1[q] {
                        v.push(prefixed(&prefix, "T1 must be positive and finite"));
                    }
                    let ghost mid = v.problems();
                    if !t2[q].0 {
                        v.push(prefixed(&prefix, "T2 must be positive and finite"));
                    } else if !t2[q].1 {
                        v.push(prefixed(&prefix, "T2 must not exceed 2·T1"));
                    }
                    proof {
                        let p = prefix@;
                        let a = when(!t1@[q as int], p + "T1 must be positive and finite"@);
                        let b = if !t2@[q as int].0 {
                            seq![p + "T2 must be positive and finite"@]
                        } else {
                            when(!t2@[q as int].1, p + "T2 must not exceed 2·T1"@)
                        };
                        assert(mid =~= before + a);
                        assert(v.problems() =~= mid + b);
                        lemma_append(start, acc, a);
                        lemma_append(start, acc + a, b);
                    }
                    q = q + 1;
                }
                return;
            }
        },
        _ => {},
    }
    let mut s = String::from_str("dissipative mode needs T1 and T2 for each of the ");
    s.append(decimal_string(n).as_str());
    s.append(" qubits");
    v.push(s);
}

/// The axes checks of every state in `states`, the `i`-th named `<label><i + 1><suffix>`.
fn states_checks(v: &mut Checks, label: &str, suffix: &str, states: &Vec<Vec<String>>, n: usize, allowed: &[&str])
    ensures
        final(v).problems() == old(v).problems() + states_problems(
            label@,
            suffix@,
            string_lists(states@),
            n as nat,
            strs(allowed@),
            states@.len(),
        ),
{
    let ghost start = v.problems();
    let ghost all = string_lists(states@);
    assert(v.problems() =~= start + states_problems(label@, suffix@, all, n as nat, strs(allowed@), 0));
    let mut i: usize = 0;
    while i < states.len()
        invariant
            i <= states@.len(),
            all == string_lists(states@),
            v.problems() == start + states_problems(label@, suffix@, all, n as nat, strs(allowed@), i as nat),
        decreases states@.len() - i,
    {
        let mut what = String::from_str(label);
        what.append(decimal_string(i + 1).as_str());
        what.append(suffix);
        assert(all[i as int] == strings(states@[i as int]@));
        v.axes(what.as_str(), &states[i], n, allowed);
        proof {
            lemma_append(
                start,
                states_problems(label@, suffix@, all, n as nat, strs(allowed@), i as nat),
                axes_problems(what@, all[i as int], n as nat, strs(allowed@)),
            );
        }
        i = i + 1;
    }
}

/// Checks of each named gate.
fn gate_checks(v: &mut Checks, gates: &Vec<String>, valid: &Vec<String>, n: usize)
    ensures
        final(v).problems() == old(v).problems() + gate_problems(
            strings(gates@),
            strings(valid@),
            n as nat,
            gates@.len(),
        ),
{
    let ghost start = v.problems();
    assert(v.problems() =~= start + gate_problems(strings(gates@), strings(valid@), n as nat, 0));
    let mut i: usize = 0;
    while i < gates.len()
        invariant
            i <= gates@.len(),
            v.problems() == start + gate_problems(strings(gates@), strings(valid@), n as nat, i as nat),
        decreases gates@.len() - i,
    {
        let ghost before = v.problems();
        let g = &gates[i];
        assert(strings(gates@)[i as int] == g@);
        if !contains_string(valid, g.as_str()) {
            if valid.len() == 0 {
                let mut s = String::from_str("gate targets are not available for ");
                s.append(decimal_string(n).as_str());
                s.append(" qubits");
                v.push(s);
            } else {
                let mut s = String::from_str("gate \"");
                s.append(g.as_str());
                s.append("\" is not one of ");
                s.append(join_strings(valid, ", ").as_str());
                s.append(" for ");
                s.append(decimal_string(n).as_str());
                s.append(" qubits");
                v.push(s);
            }
        }
        proof {
            let gs = strings(gates@);
            let vs = strings(valid@);
            let p = if vs.contains(gs[i as int]) {
                seq![]
            } else if vs.len() == 0 {
                seq!["gate targets are not available for "@ + decimal(n as nat) + " qubits"@]
            } else {
                seq![
                    "gate \""@ + gs[i as int] + "\" is not one of "@ + join(vs, ", "@) + " for "@ + decimal(n as nat)
                        + " qubits"@,
                ]
            };
            assert(v.problems() =~= before + p);
            lemma_append(start, gate_problems(gs, vs, n as nat, i as nat), p);
        }
        i = i + 1;
    }
}

/// The angle checks.
fn angle_checks(v: &mut Checks, beta: &Vec<bool>, n: usize)
    ensures
        final(v).problems() == old(v).problems() + angle_problems(beta@, n as nat, beta@.len()),
{
    let ghost start = v.problems();
    assert(v.problems() =~= start + angle_problems(beta@, n as nat, 0));
    let mut i: usize = 0;
    while i < beta.len()
        invariant
            i <= beta@.len(),
            v.problems() == start + angle_problems(beta@, n as nat, i as nat),
        decreases beta@.len() - i,
    {
        let ghost before = v.problems();
        if !beta[i] {
            let mut s = String::from_str("rotation ");
            s.append(decimal_string(i + 1).as_str());
            s.append(" needs ");
            s.append(decimal_string(n).as_str());
            s.append(" finite angles");
            v.push(s);
        }
        proof {
            let p = when(
                !beta@[i as int],
                "rotation "@ + decimal((i + 1) as nat) + " needs "@ + decimal(n as nat) + " finite angles"@,
            );
            assert(v.problems() =~= before + p);
            lemma_append(start, angle_problems(beta@, n as nat, i as nat), p);
        }
        i = i + 1;
    }
}

/// The initial-state and target checks.
fn state_checks(f: &ConfigFacts, v: &mut Checks)
    ensures
        final(v).problems() == old(v).problems() + state_problems(*f),
{
    let ghost start = v.problems();
    let n = f.n_qubits;
    let ghost nn = n as nat;
    let n_init = f.initial_states.len();
    if n_init == 0 {
        v.push(String::from_str("at least one initial state is needed"));
    }
    let ghost first = when(n_init == 0, "at least one initial state is needed"@);
    assert(v.problems() =~= start + first);
    let ghost mut acc = first;
    states_checks(v, "initial state ", "", &f.initial_states, n, &STATE_AXES);
    proof {
        let p = states_problems(
            "initial state "@,
            ""@,
            string_lists(f.initial_states@),
            nn,
            strs(STATE_AXES@),
            f.initial_states@.len(),
        );
        reveal_strlit("");
            assert(""@ =~= Seq::<char>::empty());
        lemma_append(start, acc, p);
        acc = acc + p;
    }
    let ghost before = v.problems();
    let tl = f.targets.len();
    if tl != n_init {
        let mut s = decimal_string(tl);
        s.append(" target entries for ");
        s.append(decimal_string(n_init).as_str());
        s.append(" initial states");
        v.push(s);
    }
    proof {
        let p = when(
            tl != n_init,
            decimal(tl as nat) + " target entries for "@ + decimal(n_init as nat) + " initial states"@,
        );
        assert(v.problems() =~= before + p);
        lemma_append(start, acc, p);
        acc = acc + p;
    }
    let ghost before = v.problems();
    match &f.targets {
        TargetFacts::Axis(axes) => {
            states_checks(v, "target ", "", axes, n, &STATE_AXES);
            proof {
                reveal_strlit("");
            }
            assert(""@ =~= Seq::<char>::empty());
            assert(v.problems() == before + target_problems(*f));
        },
        TargetFacts::Gate(gates) => {
            gate_checks(v, gates, &f.gate_names, n);
            assert(v.problems() == before + target_problems(*f));
        },
        TargetFacts::PhiBeta { phi, beta } => {
            if phi.len() != beta.len() {
                v.push(String::from_str("Phi and Beta must have the same number of entries"));
            }
            let ghost a = when(phi@.len() != beta@.len(), "Phi and Beta must have the same number of entries"@);
            assert(v.problems() =~= before + a);
            let ghost mid = v.problems();
            states_checks(v, "rotation ", " axes", phi, n, &ROTATION_AXES);
            let ghost b = states_problems(
                "rotation "@,
                " axes"@,
                string_lists(phi@),
                nn,
                strs(ROTATION_AXES@),
                phi@.len(),
            );
            let ghost mid2 = v.problems();
            angle_checks(v, beta, n);
            proof {
                let c = angle_problems(beta@, nn, beta@.len());
                lemma_append(before, a, b);
                lemma_append(before, a + b, c);
            }
            assert(v.problems() == before + target_problems(*f));
        },
    }
    proof {
        let p = target_problems(*f);
        assert(v.problems() == before + p);
        lemma_append(start, acc, p);
        acc = acc + p;
        reveal_strlit("");
            assert(""@ =~= Seq::<char>::empty());
    }
    assert(acc == state_problems(*f));
}

/// The optimiser-limit checks.
fn limit_checks(f: &ConfigFacts, v: &mut Checks)
    ensures
        final(v).problems() == old(v).problems() + limit_problems(*f),
{
    let ghost start = v.problems();
    if f.h0_snapshots == 0 {
        v.push(String::from_str("H0_snapshots must be at least 1"));
    }
    let ghost a = when(f.h0_snapshots == 0, "H0_snapshots must be at least 1"@);
    assert(v.problems() =~= start + a);
    let ghost mut acc = a;
    let ghost before = v.problems();
    if f.omega_r_snapshots == 0 {
        v.push(String::from_str("Omega_R_snapshots must be at least 1"));
    }
    proof {
        let p = when(f.omega_r_snapshots == 0, "Omega_R_snapshots must be at least 1"@);
        assert(v.problems() =~= before + p);
        lemma_append(start, acc, p);
        acc = acc + p;
    }
    let ghost before = v.problems();
    if f.max_iter == 0 {
        v.push(String::from_str("max_iter must be at least 1"));
    }
    proof {
        let p = when(f.max_iter == 0, "max_iter must be at least 1"@);
        assert(v.problems() =~= before + p);
        lemma_append(start, acc, p);
        acc = acc + p;
    }
    let ghost before = v.problems();
    if !f.targ_fid {
        v.push(String::from_str("targ_fid must be in (0, 1]"));
    }
    proof {
        let p = when(!f.targ_fid, "targ_fid must be in (0, 1]"@);
        assert(v.problems() =~= before + p);
        lemma_append(start, acc, p);
        acc = acc + p;
    }
    assert(acc == limit_problems(*f));
}

/// The optimiser-name and machine checks.
fn setting_checks(f: &ConfigFacts, v: &mut Checks)
    ensures
        final(v).problems() == old(v).problems() + setting_problems(*f),
{
    let ghost start = v.problems();
    let ghost mut acc = Seq::<Seq<char>>::empty();
    let names = optimizer_names();
    if !contains_str(names, f.algorithm.as_str()) {
        let mut s = String::from_str("algorithm \"");
        s.append(f.algorithm.as_str());
        s.append("\" is not supported; choose one of ");
        s.append(join_strs(names, ", ").as_str());
        v.push(s);
    }
    proof {
        let p = when(
            !spec_optimizer_names().contains(f.algorithm@),
            "algorithm \""@ + f.algorithm@ + "\" is not supported; choose one of "@ + join(
                spec_optimizer_names(),
                ", "@,
            ),
        );
        assert(v.problems() =~= start + p);
        acc = p;
    }
    let ghost before = v.problems();
    match &f.compute_resource {
        Some(r) => {
            if !str_eq(r.as_str(), "cpu") && !str_eq(r.as_str(), "gpu") {
                let mut s = String::from_str("compute_resource \"");
                s.append(r.as_str());
                s.append("\" is not cpu or gpu");
                v.push(s);
            }
        },
        None => {},
    }
    proof {
        let p = if f.compute_resource is Some {
            let r = f.compute_resource->0;
            when(r@ != "cpu"@ && r@ != "gpu"@, "compute_resource \""@ + r@ + "\" is not cpu or gpu"@)
        } else {
            seq![]
        };
        assert(v.problems() =~= before + p);
        lemma_append(start, acc, p);
        acc = acc + p;
    }
    let ghost before = v.problems();
    if f.cpu_cores == Some(0usize) {
        v.push(String::from_str("cpu_cores must be at least 1"));
    }
    proof {
        let p = when(f.cpu_cores == Some(0usize), "cpu_cores must be at least 1"@);
        assert(v.problems() =~= before + p);
        lemma_append(start, acc, p);
        acc = acc + p;
    }
    assert(acc == setting_problems(*f));
}

/// The optimiser-setting checks.
fn optimisation_checks(f: &ConfigFacts, v: &mut Checks)
    ensures
        final(v).problems() == old(v).problems() + optimisation_problems(*f),
{
    let ghost start = v.problems();
    limit_checks(f, v);
    setting_checks(f, v);
    proof {
        lemma_append(start, limit_problems(*f), setting_problems(*f));
    }
}

/// Every problem with a configuration, as sentences naming the field.  Empty means it can run.
pub fn validate(f: &ConfigFacts) -> (problems: Vec<String>)
    ensures
        strings(problems@) == spec_validate(*f),
{
    let mut v = Checks::new();
    let n = f.n_qubits;
    if n == 0 {
        v.push(String::from_str("at least one qubit is needed"));
        assert(v.problems() =~= spec_validate(*f));
        return v.0;
    }
    shape_checks(f, &mut v);
    assert(v.problems() =~= shape_problems(*f));
    if v.has_length_problems() {
        return v.0;
    }
    let ghost mut acc = shape_problems(*f);
    let ghost start = Seq::<Seq<char>>::empty();
    let ghost before = v.problems();
    if f.point_in_pulse[0] < 2 {
        v.push(String::from_str("point_in_pulse must be at least 2"));
    }
    proof {
        let p = when(f.point_in_pulse@[0] < 2, "point_in_pulse must be at least 2"@);
        assert(v.problems() =~= before + p);
        acc = acc + p;
    }
    let ghost before = v.problems();
    if !f.pulse_duration[0] {
        v.push(String::from_str("pulse_duration must be positive"));
    }
    proof {
        let p = when(!f.pulse_duration@[0], "pulse_duration must be positive"@);
        assert(v.problems() =~= before + p);
        acc = acc + p;
    }
    let ghost before = v.problems();
    let mut q: usize = 0;
    assert(v.problems() =~= before + qubits_problems(*f, 0));
    while q < n
        invariant
            n == f.n_qubits,
            n > 0,
            !length_problems(*f),
            q <= n,
            v.problems() == before + qubits_problems(*f, q as nat),
        decreases n - q,
    {
        qubit_checks(f, &mut v, q);
        proof {
            lemma_append(before, qubits_problems(*f, q as nat), qubit_problems(*f, q as int));
        }
        q = q + 1;
    }
    proof {
        acc = acc + qubits_problems(*f, n as nat);
    }
    model_checks(f, &mut v);
    proof {
        lemma_append(before, qubits_problems(*f, n as nat), model_problems(*f));
        acc = acc + model_problems(*f);
    }
    dissipation_checks(f, &mut v);
    proof {
        acc = acc + dissipation_problems(*f);
    }
    state_checks(f, &mut v);
    proof {
        acc = acc + state_problems(*f);
    }
    optimisation_checks(f, &mut v);
    proof {
        acc = acc + optimisation_problems(*f);
    }
    assert(v.problems() =~= acc);
    v.0
}

/// The problems joined into one message, as the configuration error carries them.
pub open spec fn check_message(f: ConfigFacts) -> Seq<char> {
    join(spec_validate(f), "; "@)
}

/// [`validate`] as a `Result`: `Ok` exactly when there is no problem, otherwise a configuration error listing
/// them all, separated by semicolons.
pub fn check(f: &ConfigFacts) -> (res: crate::error::Result<()>)
    ensures
        spec_validate(*f).len() == 0 ==> res is Ok,
        spec_validate(*f).len() != 0 ==> (res matches Err(crate::error::Error::Config(s)) && s@ == check_message(
            *f,
        )),
{
    let problems = validate(f);
    if problems.len() == 0 {
        Ok(())
    } else {
        Err(crate::error::Error::Config(join_strings(&problems, "; ")))
    }
}

/// A configuration without qubits has exactly one problem: that a qubit is needed.
pub proof fn law_no_qubits(f: ConfigFacts)
    requires
        f.n_qubits == 0,
    ensures
        spec_validate(f) == seq!["at least one qubit is needed"@],
{
}

/// A per-qubit list of the wrong length is always reported, and it stops the checks that read the lists qubit by
/// qubit: the problems are then the model and shape problems alone, and there is at least one.
#[verifier::rlimit(60)]
pub proof fn law_length_problem_is_reported(f: ConfigFacts)
    requires
        f.n_qubits > 0,
        length_problems(f),
    ensures
        spec_validate(f) == shape_problems(f),
        spec_validate(f).len() > 0,
{
    reveal(len_problem);
}


/// A sequence that holds `x` still holds it with anything put before or after it.
proof fn lemma_contains_joined(a: Seq<Seq<char>>, b: Seq<Seq<char>>, x: Seq<char>)
    requires
        a.contains(x) || b.contains(x),
    ensures
        (a + b).contains(x),
{
    if a.contains(x) {
        let i = choose|i: int| 0 <= i < a.len() && a[i] == x;
        assert((a + b)[i] == x);
    } else {
        let i = choose|i: int| 0 <= i < b.len() && b[i] == x;
        assert((a + b)[a.len() + i] == x);
    }
}

/// Among the relaxation problems of qubits `0..k` is the T2 bound of each qubit below `k` that breaks it.
proof fn lemma_t2_bound_listed(t1: Seq<bool>, t2: Seq<(bool, bool)>, k: nat, q: int)
    requires
        0 <= q < k,
        t2[q].0,
        !t2[q].1,
    ensures
        relaxation_problems(t1, t2, k).contains("qubit "@ + decimal((q + 1) as nat) + ": "@ + "T2 must not exceed 2·T1"@),
    decreases k,
{
    let m = "qubit "@ + decimal((q + 1) as nat) + ": "@ + "T2 must not exceed 2·T1"@;
    let last = k - 1;
    let p = qubit_prefix(last as nat);
    let head = relaxation_problems(t1, t2, (k - 1) as nat) + when(!t1[last], p + "T1 must be positive and finite"@);
    let tail = if !t2[last].0 {
        seq![p + "T2 must be positive and finite"@]
    } else {
        when(!t2[last].1, p + "T2 must not exceed 2·T1"@)
    };
    assert(relaxation_problems(t1, t2, k) == head + tail);
    if q == last {
        assert(tail[0] == m);
        lemma_contains_joined(head, tail, m);
    } else {
        lemma_t2_bound_listed(t1, t2, (k - 1) as nat, q);
        lemma_contains_joined(
            relaxation_problems(t1, t2, (k - 1) as nat),
            when(!t1[last], p + "T1 must be positive and finite"@),
            m,
        );
        lemma_contains_joined(head, tail, m);
    }
}

/// A dissipative configuration whose lists have one entry per qubit reports every qubit whose T2 is positive and
/// finite but longer than twice its T1: the coherence time cannot exceed twice the amplitude-damping time.
pub proof fn law_t2_above_twice_t1_is_reported(f: ConfigFacts, q: int)
    requires
        f.n_qubits > 0,
        !length_problems(f),
        f.dissipative,
        f.t1 matches Some(t1) && t1@.len() == f.n_qubits,
        f.t2 matches Some(t2) && t2@.len() == f.n_qubits,
        0 <= q < f.n_qubits,
        f.t2->0@[q].0,
        !f.t2->0@[q].1,
    ensures
        spec_validate(f).contains("qubit "@ + decimal((q + 1) as nat) + ": "@ + "T2 must not exceed 2·T1"@),
{
    let m = "qubit "@ + decimal((q + 1) as nat) + ": "@ + "T2 must not exceed 2·T1"@;
    let n = f.n_qubits as nat;
    lemma_t2_bound_listed(f.t1->0@, f.t2->0@, n, q);
    assert(dissipation_problems(f) == relaxation_problems(f.t1->0@, f.t2->0@, n));
    let a = shape_problems(f) + when(f.point_in_pulse@[0] < 2, "point_in_pulse must be at least 2"@) + when(
        !f.pulse_duration@[0],
        "pulse_duration must be positive"@,
    ) + qubits_problems(f, n) + model_problems(f);
    lemma_contains_joined(a, dissipation_problems(f), m);
    lemma_contains_joined(a + dissipation_problems(f), state_problems(f), m);
    lemma_contains_joined(a + dissipation_problems(f) + state_problems(f), optimisation_problems(f), m);
}

/// A dissipative configuration whose lists have one entry per qubit passes the checks only if every qubit whose
/// T2 is positive and finite has T2 at most twice its T1.
pub proof fn law_valid_relaxation_times_keep_t2_bound(f: ConfigFacts)
    requires
        spec_validate(f) == Seq::<Seq<char>>::empty(),
        f.dissipative,
        f.t1 matches Some(t1) && t1@.len() == f.n_qubits,
        f.t2 matches Some(t2) && t2@.len() == f.n_qubits,
    ensures
        forall|q: int| 0 <= q < f.n_qubits && (#[trigger] f.t2->0@[q]).0 ==> f.t2->0@[q].1,
{
    assert forall|q: int| 0 <= q < f.n_qubits && (#[trigger] f.t2->0@[q]).0 implies f.t2->0@[q].1 by {
        if !f.t2->0@[q].1 {
            if length_problems(f) {
                law_length_problem_is_reported(f);
            }
            law_t2_above_twice_t1_is_reported(f, q);
        }
    }
}

} // verus!
