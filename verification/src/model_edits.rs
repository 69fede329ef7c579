//! Switching the model and the relaxation of a configuration, filling in what the new setting needs.

use vstd::prelude::*;

use crate::config::growth::lemma_valid_states;
use crate::config::parameters::{Parameters, is_square, opt_len};
use crate::config::validate::{
    dissipation_problems, len_problem, length_problems, model_name_problems, model_problems, optimisation_problems,
    qubit_problems, qubits_problems, shape_problems, spec_validate, state_problems,
};
use crate::config::ConfigFacts;
use crate::hamiltonian::spec_model_names;
use crate::config::Dissipation;
use crate::edit::{coupling_types, opt_view, repeat_value, spec_coupling_types, copies};
use crate::text::{ascii_upper, contains_str, is_ascii, str_eq, strs, upper_form};

verus! {

/// Whether the optional name `c` is one of `valid`.
pub open spec fn named_in(c: Option<String>, valid: Seq<Seq<char>>) -> bool {
    c matches Some(s) && valid.contains(s@)
}

/// `new` has the offsets, pulse and waveform settings, couplings and coupling spread of `old`.
pub open spec fn pulse_fields_kept<F>(new: Parameters<F>, old: Parameters<F>) -> bool {
    &&& new.delta == old.delta
    &&& new.sigma_delta == old.sigma_delta
    &&& new.omega_r_max == old.omega_r_max
    &&& new.sigma_omega_r_max == old.sigma_omega_r_max
    &&& new.pulse_duration == old.pulse_duration
    &&& new.point_in_pulse == old.point_in_pulse
    &&& new.wf_type == old.wf_type
    &&& new.wf_mode == old.wf_mode
    &&& new.amplitude_envelope == old.amplitude_envelope
    &&& new.amplitude_order == old.amplitude_order
    &&& new.coverage == old.coverage
    &&& new.sw == old.sw
    &&& new.pulse_offset == old.pulse_offset
    &&& new.pulse_bandwidth == old.pulse_bandwidth
    &&& new.ratio_factor == old.ratio_factor
    &&& new.profile_order == old.profile_order
    &&& new.n_para == old.n_para
    &&& new.j == old.j
    &&& new.sigma_j == old.sigma_j
}

/// `new`, `h` and `d` are the parameters `old`, the model name and the relaxation `old_d` switched to `model` for
/// `n` qubits, as [`set_model`] does it.
pub open spec fn model_switched<F>(
    new: Parameters<F>,
    old: Parameters<F>,
    h: Option<String>,
    d: Option<Dissipation>,
    old_d: Option<Dissipation>,
    n: nat,
    model: Option<Seq<char>>,
    anharmonicity: F,
) -> bool {
    let types = spec_coupling_types(model);
    let retype = n > 1 && !named_in(old.coupling_type, types);
    &&& (model is None ==> h is None)
    &&& (model matches Some(m) ==> (h matches Some(s) && s@ == m))
    &&& (retype ==> (new.coupling_type matches Some(c) && c@ == types[0]))
    &&& (!retype ==> new.coupling_type == old.coupling_type)
    &&& (model == Some("duffing_transmon"@) ==> {
        &&& (old.anharmonicities matches Some(a) && a@.len() == n) ==> new.anharmonicities == old.anharmonicities
        &&& !(old.anharmonicities matches Some(a) && a@.len() == n) ==> (new.anharmonicities matches Some(a)
            && a@ == copies(anharmonicity, n))
        &&& old_d == Some(Dissipation::Dissipative) ==> d == Some(Dissipation::NonDissipative)
        &&& old_d != Some(Dissipation::Dissipative) ==> d == old_d
    })
    &&& (model != Some("duffing_transmon"@) ==> d == old_d)
    &&& (model != Some("superconducting"@) ==> new.zz_crosstalk is None && new.stark_shift_coeffs is None)
    &&& (model == Some("superconducting"@) ==> new.zz_crosstalk == old.zz_crosstalk && new.stark_shift_coeffs
        == old.stark_shift_coeffs && new.anharmonicities == old.anharmonicities)
    &&& (model != Some("superconducting"@) && model != Some("duffing_transmon"@) ==> new.anharmonicities is None)
    &&& pulse_fields_kept(new, old)
    &&& new.t1 == old.t1
    &&& new.t2 == old.t2
}

/// Switch the model to `model` (`None` is the legacy spin-chain path) for `n` qubits: with more than one qubit, a
/// coupling type the model does not accept becomes its first; the three-level model gets one anharmonicity per
/// qubit (`anharmonicity` each, unless it has that many) and loses relaxation; the crosstalk and Stark
/// coefficients go unless the model is the two-level one, and the anharmonicities unless it is a transmon model.
/// Everything else stays.
pub fn set_model<F: Copy>(
    p: &mut Parameters<F>,
    hamiltonian_type: &mut Option<String>,
    dissipation: &mut Option<Dissipation>,
    n: usize,
    model: Option<&str>,
    anharmonicity: F,
)
    ensures
        model_switched(
            *final(p),
            *old(p),
            *final(hamiltonian_type),
            *final(dissipation),
            *old(dissipation),
            n as nat,
            opt_view(model),
            anharmonicity,
        ),
{
    proof {
        reveal_strlit("superconducting");
        reveal_strlit("duffing_transmon");
        assert("superconducting"@.len() != "duffing_transmon"@.len());
    }
    *hamiltonian_type = match model {
        Some(m) => Some(String::from_str(m)),
        None => None,
    };
    let valid = coupling_types(model);
    assert(strs(valid@).len() == valid@.len());
    let accepted = match &p.coupling_type {
        Some(c) => contains_str(valid, c.as_str()),
        None => false,
    };
    if n > 1 && !accepted {
        assert(strs(valid@)[0] == valid@[0]@);
        p.coupling_type = Some(String::from_str(valid[0]));
    }
    let (duffing, two_level) = match model {
        Some(m) => (str_eq(m, "duffing_transmon"), str_eq(m, "superconducting")),
        None => (false, false),
    };
    if duffing {
        let enough = match &p.anharmonicities {
            Some(a) => a.len() == n,
            None => false,
        };
        if !enough {
            p.anharmonicities = Some(repeat_value(anharmonicity, n));
        }
        let dissipative = match dissipation {
            Some(Dissipation::Dissipative) => true,
            _ => false,
        };
        if dissipative {
            *dissipation = Some(Dissipation::NonDissipative);
        }
    }
    if !two_level {
        p.zz_crosstalk = None;
        p.stark_shift_coeffs = None;
        if !duffing {
            p.anharmonicities = None;
        }
    }
}

/// Turn relaxation on or off for `n` qubits.  Turned on, the relaxation times `t1` and `t2` are given to every
/// qubit unless there are already that many of each.
pub fn set_dissipative<F: Copy>(p: &mut Parameters<F>, dissipation: &mut Option<Dissipation>, n: usize, on: bool, t1: F, t2: F)
    ensures
        on ==> *final(dissipation) == Some(Dissipation::Dissipative),
        !on ==> *final(dissipation) == Some(Dissipation::NonDissipative),
        on && (old(p).t1 matches Some(a) && a@.len() == n) ==> final(p).t1 == old(p).t1,
        on && !(old(p).t1 matches Some(a) && a@.len() == n) ==> (final(p).t1 matches Some(a) && a@ == copies(t1, n as nat)),
        on && (old(p).t2 matches Some(a) && a@.len() == n) ==> final(p).t2 == old(p).t2,
        on && !(old(p).t2 matches Some(a) && a@.len() == n) ==> (final(p).t2 matches Some(a) && a@ == copies(t2, n as nat)),
        !on ==> final(p).t1 == old(p).t1 && final(p).t2 == old(p).t2,
        pulse_fields_kept(*final(p), *old(p)),
        final(p).coupling_type == old(p).coupling_type,
        final(p).anharmonicities == old(p).anharmonicities,
        final(p).zz_crosstalk == old(p).zz_crosstalk,
        final(p).stark_shift_coeffs == old(p).stark_shift_coeffs,
{
    *dissipation = Some(if on {
        Dissipation::Dissipative
    } else {
        Dissipation::NonDissipative
    });
    if on {
        let has_t1 = match &p.t1 {
            Some(a) => a.len() == n,
            None => false,
        };
        if !has_t1 {
            p.t1 = Some(repeat_value(t1, n));
        }
        let has_t2 = match &p.t2 {
            Some(a) => a.len() == n,
            None => false,
        };
        if !has_t2 {
            p.t2 = Some(repeat_value(t2, n));
        }
    }
}


/// `k` is the number of entries of the list `v`, absent where it is.
pub open spec fn counted<T>(k: Option<usize>, v: Option<Vec<T>>) -> bool {
    match (k, v) {
        (None, None) => true,
        (Some(k), Some(v)) => k == v@.len(),
        _ => false,
    }
}

/// `rows` are the row lengths of the matrix `m`, absent where it is.
pub open spec fn rows_counted<T>(rows: Option<Vec<usize>>, m: Option<Vec<Vec<T>>>) -> bool {
    match (rows, m) {
        (None, None) => true,
        (Some(r), Some(m)) => r@.len() == m@.len() && forall|i: int| 0 <= i < r@.len() ==> r@[i] == (#[trigger] m@[i])@.len(),
        _ => false,
    }
}

/// `k` is the name `v`, absent where it is.
pub open spec fn name_read(k: Option<String>, v: Option<String>) -> bool {
    match (k, v) {
        (None, None) => true,
        (Some(a), Some(b)) => a@ == b@,
        _ => false,
    }
}

/// `f` is what the checks read of the model `h`, the relaxation `d` and the model settings of `p`.
pub open spec fn reads_model<F>(f: ConfigFacts, p: Parameters<F>, h: Option<String>, d: Option<Dissipation>) -> bool {
    &&& name_read(f.hamiltonian_type, h)
    &&& name_read(f.coupling_type, p.coupling_type)
    &&& counted(f.anharmonicities, p.anharmonicities)
    &&& counted(f.stark_shift_coeffs, p.stark_shift_coeffs)
    &&& rows_counted(f.zz_crosstalk, p.zz_crosstalk)
    &&& f.dissipative == (d == Some(Dissipation::Dissipative))
}

/// `g` is `f` with another model, coupling type, relaxation and model lists: everything else the checks read is
/// the same.
pub open spec fn same_but_model(g: ConfigFacts, f: ConfigFacts) -> bool {
    g == ConfigFacts {
        hamiltonian_type: g.hamiltonian_type,
        coupling_type: g.coupling_type,
        anharmonicities: g.anharmonicities,
        stark_shift_coeffs: g.stark_shift_coeffs,
        zz_crosstalk: g.zz_crosstalk,
        dissipative: g.dissipative,
        ..f
    }
}

/// The two-level model's lists of `p`, where present, fit `n` qubits.
pub open spec fn two_level_lists_fit<F>(p: Parameters<F>, n: nat) -> bool {
    &&& opt_len(p.anharmonicities, n)
    &&& opt_len(p.stark_shift_coeffs, n)
    &&& (p.zz_crosstalk matches Some(z) ==> is_square(z@, n))
}

/// The per-qubit checks do not read the model settings.
proof fn lemma_qubits_read_no_model(g: ConfigFacts, f: ConfigFacts, k: nat)
    requires
        same_but_model(g, f),
    ensures
        qubits_problems(g, k) == qubits_problems(f, k),
    decreases k,
{
    if k > 0 {
        lemma_qubits_read_no_model(g, f, (k - 1) as nat);
        assert(qubit_problems(g, k - 1) == qubit_problems(f, k - 1));
    }
}

/// The spin-chain coupling types are their own upper-case forms.
proof fn lemma_spin_types_upper(c: Seq<char>)
    requires
        seq!["Z"@, "XY"@, "XYZ"@].contains(c),
    ensures
        seq!["Z"@, "XY"@, "XYZ"@].contains(upper_form(c)),
{
    reveal_strlit("Z");
    reveal_strlit("XY");
    reveal_strlit("XYZ");
    let k = choose|i: int| 0 <= i < 3 && seq!["Z"@, "XY"@, "XYZ"@][i] == c;
    assert(is_ascii(c));
    assert(ascii_upper(c) =~= c);
    assert(seq!["Z"@, "XY"@, "XYZ"@][k] == upper_form(c));
}

/// The model checks of a configuration whose model was switched by [`set_model`] draw no problem, given that the
/// model is a named one or the legacy path, and that the two-level model's lists fit.
proof fn lemma_switched_model_checks<F>(
    g: ConfigFacts,
    old_p: Parameters<F>,
    new_p: Parameters<F>,
    new_h: Option<String>,
    new_d: Option<Dissipation>,
    old_d: Option<Dissipation>,
    model: Option<Seq<char>>,
    anharmonicity: F,
)
    requires
        model_switched(new_p, old_p, new_h, new_d, old_d, g.n_qubits as nat, model, anharmonicity),
        reads_model(g, new_p, new_h, new_d),
        model matches Some(m) ==> spec_model_names().contains(m),
        model == Some("superconducting"@) ==> two_level_lists_fit(old_p, g.n_qubits as nat),
    ensures
        model_problems(g) == Seq::<Seq<char>>::empty(),
{
    reveal_strlit("superconducting");
    reveal_strlit("duffing_transmon");
    assert("superconducting"@.len() != "duffing_transmon"@.len());
    let n = g.n_qubits as nat;
    let types = spec_coupling_types(model);
    if model == Some("superconducting"@) {
        reveal(len_problem);
        assert(g.hamiltonian_type matches Some(m) && m@ == "superconducting"@);
        if n > 1 {
            match g.coupling_type {
                Some(c) => {
                    assert(types.contains(c@));
                },
                None => {},
            }
        }
        match g.anharmonicities {
            Some(a) => assert(a == n),
            None => {},
        }
        match g.stark_shift_coeffs {
            Some(a) => assert(a == n),
            None => {},
        }
        match g.zz_crosstalk {
            Some(rows) => {
                let z = new_p.zz_crosstalk->0;
                assert(is_square(z@, n));
                assert(rows@.len() == n);
                assert forall|i: int| 0 <= i < rows@.len() implies rows@[i] == n by {
                    assert(rows@[i] == z@[i]@.len());
                }
            },
            None => {},
        }
        assert(model_problems(g) =~= Seq::<Seq<char>>::empty());
    } else if model == Some("duffing_transmon"@) {
        reveal(len_problem);
        assert(model_problems(g) =~= Seq::<Seq<char>>::empty());
    } else {
        if n > 1 {
            match g.coupling_type {
                Some(c) => {
                    assert(types.contains(c@));
                    assert(seq!["Z"@, "XY"@, "XYZ"@].contains(c@));
                    lemma_spin_types_upper(c@);
                },
                None => {},
            }
        }
        assert(model_problems(g) =~= Seq::<Seq<char>>::empty());
    }
}

/// Switching the model keeps a configuration that passes every check passing them.  `f` and `g` are what the
/// checks read of the configuration before and after [`set_model`] switched its parameters `old_p`, model
/// `old_h` and relaxation `old_d` to `new_p`, `new_h` and `new_d`; they are alike but for the model settings.
/// The new model is one of the named models or the legacy path, and where it is the two-level model the
/// anharmonicities, Stark coefficients and crosstalk matrix it keeps fit the qubits - the spin-chain checks do
/// not read them, so a configuration can pass with lists that the two-level checks refuse.
pub proof fn law_set_model_keeps_config_valid<F>(
    f: ConfigFacts,
    g: ConfigFacts,
    old_p: Parameters<F>,
    new_p: Parameters<F>,
    old_h: Option<String>,
    new_h: Option<String>,
    old_d: Option<Dissipation>,
    new_d: Option<Dissipation>,
    model: Option<Seq<char>>,
    anharmonicity: F,
)
    requires
        spec_validate(f) == Seq::<Seq<char>>::empty(),
        reads_model(f, old_p, old_h, old_d),
        model_switched(new_p, old_p, new_h, new_d, old_d, f.n_qubits as nat, model, anharmonicity),
        reads_model(g, new_p, new_h, new_d),
        same_but_model(g, f),
        model matches Some(m) ==> spec_model_names().contains(m),
        model == Some("superconducting"@) ==> two_level_lists_fit(old_p, f.n_qubits as nat),
    ensures
        spec_validate(g) == Seq::<Seq<char>>::empty(),
{
    reveal_strlit("superconducting");
    reveal_strlit("duffing_transmon");
    assert("superconducting"@.len() != "duffing_transmon"@.len());
    let n = f.n_qubits as nat;
    assert(n > 0) by {
        if n == 0 {
            assert(spec_validate(f).len() == 1);
        }
    }
    lemma_valid_states(f);
    assert(shape_problems(f).len() == 0);
    assert(qubits_problems(f, n).len() == 0);
    assert(model_problems(f).len() == 0);
    assert(dissipation_problems(f).len() == 0);
    assert(optimisation_problems(f).len() == 0);
    lemma_qubits_read_no_model(g, f, n);
    assert(state_problems(g) == state_problems(f));
    assert(optimisation_problems(g) == optimisation_problems(f));
    assert(!length_problems(g));
    assert(model_name_problems(g) =~= Seq::<Seq<char>>::empty());
    assert(model_name_problems(f) =~= Seq::<Seq<char>>::empty());
    assert(shape_problems(g) == shape_problems(f));
    if g.dissipative != f.dissipative {
        assert(!g.dissipative);
    } else {
        assert(dissipation_problems(g) == dissipation_problems(f));
    }
    lemma_switched_model_checks(g, old_p, new_p, new_h, new_d, old_d, model, anharmonicity);
    assert(spec_validate(g) =~= Seq::<Seq<char>>::empty());
}


/// Switching to a transmon model never overwrites the user's anharmonicities when they already have one entry
/// per qubit; and after a switch to the three-level model there is always one per qubit.
pub proof fn law_fitting_anharmonicities_are_kept<F>(
    new: Parameters<F>,
    old: Parameters<F>,
    h: Option<String>,
    d: Option<Dissipation>,
    old_d: Option<Dissipation>,
    n: nat,
    model: Option<Seq<char>>,
    anharmonicity: F,
)
    requires
        model_switched(new, old, h, d, old_d, n, model, anharmonicity),
        model == Some("superconducting"@) || model == Some("duffing_transmon"@),
    ensures
        (old.anharmonicities matches Some(a) && a@.len() == n) ==> new.anharmonicities == old.anharmonicities,
        model == Some("duffing_transmon"@) ==> (new.anharmonicities matches Some(a) && a@.len() == n),
{
    reveal_strlit("superconducting");
    reveal_strlit("duffing_transmon");
    assert("superconducting"@.len() != "duffing_transmon"@.len());
}

} // verus!
