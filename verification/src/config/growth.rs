//! What adding an initial state does to the checks: a configuration whose states and targets pass them still
//! passes them after a state is added with a copy of the last target.

use vstd::prelude::*;

use super::validate::{
    ConfigFacts, TargetFacts, angle_problems, axes_problems, axis_name_problems, gate_problems, state_problems,
    states_problems, string_lists, target_problems,
};
use super::validate::{
    dissipation_problems, law_length_problem_is_reported, length_problems, model_problems, optimisation_problems,
    qubit_problems, qubits_problems, shape_problems, spec_validate,
};
use super::{ROTATION_AXES, STATE_AXES, Targets};
use crate::edit::{copies, is_addition};
use crate::text::{decimal, strings, strs};

verus! {

/// `g` is `f` with one more initial state, every qubit along `Z`, and one more target, a copy of the last one;
/// everything else the state checks read is the same.
pub open spec fn is_state_added(g: ConfigFacts, f: ConfigFacts) -> bool {
    let n = f.n_qubits as nat;
    &&& g.n_qubits == f.n_qubits
    &&& g.gate_names@ == f.gate_names@
    &&& string_lists(g.initial_states@) == string_lists(f.initial_states@).push(copies("Z"@, n))
    &&& match (g.targets, f.targets) {
        (TargetFacts::Axis(a2), TargetFacts::Axis(a)) => string_lists(a2@) == string_lists(a@).push(
            string_lists(a@).last(),
        ),
        (TargetFacts::Gate(g2), TargetFacts::Gate(g1)) => strings(g2@) == strings(g1@).push(strings(g1@).last()),
        (TargetFacts::PhiBeta { phi: p2, beta: b2 }, TargetFacts::PhiBeta { phi: p, beta: b }) => {
            &&& string_lists(p2@) == string_lists(p@).push(string_lists(p@).last())
            &&& b2@ == b@.push(b@.last())
        },
        _ => false,
    }
}

/// How many axis names are reported does not depend on what the list is called.
proof fn lemma_axis_names_count(w1: Seq<char>, w2: Seq<char>, s: Seq<Seq<char>>, allowed: Seq<Seq<char>>, k: nat)
    ensures
        axis_name_problems(w1, s, allowed, k).len() == axis_name_problems(w2, s, allowed, k).len(),
    decreases k,
{
    if k > 0 {
        lemma_axis_names_count(w1, w2, s, allowed, (k - 1) as nat);
    }
}

/// Whether a list of axes draws a problem does not depend on what the list is called.
proof fn lemma_axes_count(w1: Seq<char>, w2: Seq<char>, s: Seq<Seq<char>>, n: nat, allowed: Seq<Seq<char>>)
    ensures
        axes_problems(w1, s, n, allowed).len() == axes_problems(w2, s, n, allowed).len(),
{
    if s.len() == n {
        lemma_axis_names_count(w1, w2, s, allowed, s.len());
    }
}

/// Names that are all allowed draw no problem.
proof fn lemma_all_allowed(w: Seq<char>, s: Seq<Seq<char>>, allowed: Seq<Seq<char>>, k: nat)
    requires
        k <= s.len(),
        forall|i: int| 0 <= i < k ==> allowed.contains(#[trigger] s[i]),
    ensures
        axis_name_problems(w, s, allowed, k) == Seq::<Seq<char>>::empty(),
    decreases k,
{
    if k > 0 {
        lemma_all_allowed(w, s, allowed, (k - 1) as nat);
        assert(allowed.contains(s[k - 1]));
    }
}

/// The lists up to `k` are checked alike with one more list at the end.
proof fn lemma_states_prefix(
    label: Seq<char>,
    suffix: Seq<char>,
    st: Seq<Seq<Seq<char>>>,
    x: Seq<Seq<char>>,
    n: nat,
    allowed: Seq<Seq<char>>,
    k: nat,
)
    requires
        k <= st.len(),
    ensures
        states_problems(label, suffix, st.push(x), n, allowed, k) == states_problems(label, suffix, st, n, allowed, k),
    decreases k,
{
    if k > 0 {
        lemma_states_prefix(label, suffix, st, x, n, allowed, (k - 1) as nat);
        assert(st.push(x)[k - 1] == st[k - 1]);
    }
}

/// Lists that pass the checks still pass them with one more list that draws no problem.
proof fn lemma_states_push(
    label: Seq<char>,
    suffix: Seq<char>,
    st: Seq<Seq<Seq<char>>>,
    x: Seq<Seq<char>>,
    n: nat,
    allowed: Seq<Seq<char>>,
)
    requires
        states_problems(label, suffix, st, n, allowed, st.len()).len() == 0,
        axes_problems(label + decimal(st.len() + 1) + suffix, x, n, allowed).len() == 0,
    ensures
        states_problems(label, suffix, st.push(x), n, allowed, st.len() + 1).len() == 0,
{
    lemma_states_prefix(label, suffix, st, x, n, allowed, st.len());
    assert(st.push(x)[st.len() as int] == x);
}

/// Lists that pass the checks still pass them with a copy of the last one added.
proof fn lemma_states_copy_last(
    label: Seq<char>,
    suffix: Seq<char>,
    st: Seq<Seq<Seq<char>>>,
    n: nat,
    allowed: Seq<Seq<char>>,
)
    requires
        st.len() > 0,
        states_problems(label, suffix, st, n, allowed, st.len()).len() == 0,
    ensures
        states_problems(label, suffix, st.push(st.last()), n, allowed, st.len() + 1).len() == 0,
{
    let k = st.len();
    assert(states_problems(label, suffix, st, n, allowed, k) == states_problems(
        label,
        suffix,
        st,
        n,
        allowed,
        (k - 1) as nat,
    ) + axes_problems(label + decimal(k) + suffix, st[k - 1], n, allowed));
    lemma_axes_count(label + decimal(k) + suffix, label + decimal(k + 1) + suffix, st.last(), n, allowed);
    lemma_states_push(label, suffix, st, st.last(), n, allowed);
}

/// Gates up to `k` are checked alike with one more gate at the end.
proof fn lemma_gates_prefix(gs: Seq<Seq<char>>, x: Seq<char>, valid: Seq<Seq<char>>, n: nat, k: nat)
    requires
        k <= gs.len(),
    ensures
        gate_problems(gs.push(x), valid, n, k) == gate_problems(gs, valid, n, k),
    decreases k,
{
    if k > 0 {
        lemma_gates_prefix(gs, x, valid, n, (k - 1) as nat);
        assert(gs.push(x)[k - 1] == gs[k - 1]);
    }
}

/// Angles up to `k` are checked alike with one more rotation at the end.
proof fn lemma_angles_prefix(b: Seq<bool>, x: bool, n: nat, k: nat)
    requires
        k <= b.len(),
    ensures
        angle_problems(b.push(x), n, k) == angle_problems(b, n, k),
    decreases k,
{
    if k > 0 {
        lemma_angles_prefix(b, x, n, (k - 1) as nat);
        assert(b.push(x)[k - 1] == b[k - 1]);
    }
}

/// Adding an initial state keeps the states and targets passing the checks: where they drew no problem, the
/// configuration with one more initial state, every qubit along `Z`, and a copy of the last target draws none
/// either.
pub proof fn law_adding_a_state_keeps_states_valid(f: ConfigFacts, g: ConfigFacts)
    requires
        f.n_qubits > 0,
        state_problems(f) == Seq::<Seq<char>>::empty(),
        is_state_added(g, f),
    ensures
        state_problems(g) == Seq::<Seq<char>>::empty(),
{
    let n = f.n_qubits as nat;
    let st = string_lists(f.initial_states@);
    let st2 = string_lists(g.initial_states@);
    let allowed = strs(STATE_AXES@);
    assert(f.targets.spec_len() == st.len());
    assert(st.len() > 0);
    assert(st2 == st.push(copies("Z"@, n)));
    // The initial states.
    let z = copies("Z"@, n);
    assert(allowed[0] == "Z"@);
    assert forall|i: int| 0 <= i < n implies allowed.contains(#[trigger] z[i]) by {
        assert(z[i] == allowed[0]);
    }
    lemma_all_allowed("initial state "@ + decimal(st.len() + 1) + seq![], z, allowed, n);
    lemma_states_push("initial state "@, seq![], st, z, n, allowed);
    assert(states_problems("initial state "@, seq![], st2, n, allowed, st2.len()).len() == 0);
    // The targets.
    match (g.targets, f.targets) {
        (TargetFacts::Axis(a2), TargetFacts::Axis(a)) => {
            let t = string_lists(a@);
            assert(string_lists(a2@) == t.push(t.last()));
            assert(t.len() == st.len());
            assert(target_problems(f) == states_problems("target "@, seq![], t, n, allowed, t.len()));
            lemma_states_copy_last("target "@, seq![], t, n, allowed);
            assert(target_problems(g).len() == 0);
        },
        (TargetFacts::Gate(g2), TargetFacts::Gate(g1)) => {
            let gs = strings(g1@);
            let valid = strings(f.gate_names@);
            assert(strings(g2@) == gs.push(gs.last()));
            assert(gs.len() == st.len());
            let k = gs.len();
            assert(gate_problems(gs, valid, n, k) == gate_problems(gs, valid, n, (k - 1) as nat) + (if valid.contains(
                gs[k - 1],
            ) {
                seq![]
            } else if valid.len() == 0 {
                seq!["gate targets are not available for "@ + decimal(n) + " qubits"@]
            } else {
                seq!["gate \""@ + gs[k - 1] + "\" is not one of "@ + join_valid(valid) + " for "@ + decimal(n)
                    + " qubits"@]
            }));
            assert(valid.contains(gs.last()));
            lemma_gates_prefix(gs, gs.last(), valid, n, k);
            assert(gs.push(gs.last())[k as int] == gs.last());
            assert(target_problems(g).len() == 0);
        },
        (TargetFacts::PhiBeta { phi: p2, beta: b2 }, TargetFacts::PhiBeta { phi: p, beta: b }) => {
            let t = string_lists(p@);
            let rot = strs(ROTATION_AXES@);
            assert(string_lists(p2@) == t.push(t.last()));
            assert(t.len() == st.len());
            assert(target_problems(f) == crate::config::validate::when(p@.len() != b@.len(), "Phi and Beta must have the same number of entries"@)
                + states_problems("rotation "@, " axes"@, t, n, rot, t.len()) + angle_problems(b@, n, b@.len()));
            assert(p@.len() == b@.len());
            lemma_states_copy_last("rotation "@, " axes"@, t, n, rot);
            let k = b@.len();
            assert(angle_problems(b@, n, k) == angle_problems(b@, n, (k - 1) as nat) + crate::config::validate::when(
                !b@[k - 1],
                "rotation "@ + decimal(k as nat) + " needs "@ + decimal(n) + " finite angles"@,
            ));
            assert(b@[k - 1]);
            lemma_angles_prefix(b@, b@.last(), n, k);
            assert(b@.push(b@.last())[k as int] == b@.last());
            assert(target_problems(g).len() == 0);
        },
        _ => {},
    }
    assert(state_problems(g) =~= Seq::<Seq<char>>::empty());
}

/// The valid gates joined for a message.
pub open spec fn join_valid(valid: Seq<Seq<char>>) -> Seq<char> {
    crate::text::join(valid, ", "@)
}

/// `tf` is what the checks read of the targets `t`: the same axes or gates, and for each rotation whether its
/// angles pass, as `angles_ok` says of them.
pub open spec fn reads_targets<B>(t: Targets<B>, angles_ok: spec_fn(Seq<B>) -> bool, tf: TargetFacts) -> bool {
    match (t, tf) {
        (Targets::Axis(a), TargetFacts::Axis(fa)) => fa@ == a@,
        (Targets::Gate(g), TargetFacts::Gate(fg)) => fg@ == g@,
        (Targets::PhiBeta { phi, beta }, TargetFacts::PhiBeta { phi: fp, beta: fb }) => {
            &&& fp@ == phi@
            &&& fb@ == beta@.map_values(|r: Vec<B>| angles_ok(r@))
        },
        _ => false,
    }
}

/// `g` is `f` with other initial states and targets: everything else the checks read is the same.
pub open spec fn same_but_states(g: ConfigFacts, f: ConfigFacts) -> bool {
    g == ConfigFacts { initial_states: g.initial_states, targets: g.targets, ..f }
}

/// The checks other than those on states and targets read neither.
proof fn lemma_qubits_alike(g: ConfigFacts, f: ConfigFacts, k: nat)
    requires
        same_but_states(g, f),
    ensures
        qubits_problems(g, k) == qubits_problems(f, k),
    decreases k,
{
    if k > 0 {
        lemma_qubits_alike(g, f, (k - 1) as nat);
        assert(qubit_problems(g, k - 1) == qubit_problems(f, k - 1));
    }
}

/// The state and target checks of a configuration that passes every check draw no problem.
pub(crate) proof fn lemma_valid_states(f: ConfigFacts)
    requires
        f.n_qubits > 0,
        spec_validate(f) == Seq::<Seq<char>>::empty(),
    ensures
        !length_problems(f),
        state_problems(f) == Seq::<Seq<char>>::empty(),
{
    if length_problems(f) {
        law_length_problem_is_reported(f);
    }
}

/// Adding an initial state keeps a configuration that passes every check passing them.  `old_states` and
/// `old_targets` are the configuration's initial states and targets, `new_states` and `new_targets` what
/// `add_initial_state` makes of them for `n` qubits (with `gate` and `angle` its defaults); `f` and `g` are what
/// the checks read of the configuration before and after, alike but for the states and targets, with
/// `angles_ok` the check on a rotation's angles.
pub proof fn law_add_initial_state_keeps_config_valid<B>(
    f: ConfigFacts,
    g: ConfigFacts,
    old_states: Seq<Vec<String>>,
    new_states: Seq<Vec<String>>,
    old_targets: Targets<B>,
    new_targets: Targets<B>,
    gate: Option<Seq<char>>,
    angle: B,
    angles_ok: spec_fn(Seq<B>) -> bool,
)
    requires
        f.n_qubits > 0,
        spec_validate(f) == Seq::<Seq<char>>::empty(),
        f.initial_states@ == old_states,
        reads_targets(old_targets, angles_ok, f.targets),
        new_states.len() == old_states.len() + 1,
        new_states.drop_last() == old_states,
        strings(new_states.last()@) == copies("Z"@, f.n_qubits as nat),
        is_addition(new_targets, old_targets, f.n_qubits as nat, gate, angle),
        g.initial_states@ == new_states,
        reads_targets(new_targets, angles_ok, g.targets),
        same_but_states(g, f),
    ensures
        spec_validate(g) == Seq::<Seq<char>>::empty(),
{
    let n = f.n_qubits as nat;
    lemma_valid_states(f);
    let st = string_lists(old_states);
    assert(f.targets.spec_len() == st.len());
    assert(string_lists(new_states) =~= st.push(copies("Z"@, n))) by {
        assert forall|i: int| 0 <= i < old_states.len() implies new_states[i] == old_states[i] by {
            assert(new_states.drop_last()[i] == new_states[i]);
        }
    }
    match (new_targets, old_targets) {
        (Targets::Axis(a2), Targets::Axis(a)) => {
            assert(a@.len() > 0);
            assert forall|i: int| 0 <= i < a@.len() implies a2@[i] == a@[i] by {
                assert(a2@.drop_last()[i] == a2@[i]);
            }
            assert(string_lists(a2@) =~= string_lists(a@).push(string_lists(a@).last()));
        },
        (Targets::Gate(g2), Targets::Gate(g1)) => {
            assert(g1@.len() > 0);
            assert forall|i: int| 0 <= i < g1@.len() implies g2@[i] == g1@[i] by {
                assert(g2@.drop_last()[i] == g2@[i]);
            }
            assert(strings(g2@) =~= strings(g1@).push(strings(g1@).last()));
        },
        (Targets::PhiBeta { phi: p2, beta: b2 }, Targets::PhiBeta { phi: p, beta: b }) => {
            assert(p@.len() > 0);
            assert forall|i: int| 0 <= i < p@.len() implies p2@[i] == p@[i] by {
                assert(p2@.drop_last()[i] == p2@[i]);
            }
            assert(string_lists(p2@) =~= string_lists(p@).push(string_lists(p@).last()));
            let fb = b@.map_values(|r: Vec<B>| angles_ok(r@));
            assert(b@.len() > 0);
            assert forall|i: int| 0 <= i < b@.len() implies b2@[i] == b@[i] by {
                assert(b2@.drop_last()[i] == b2@[i]);
            }
            assert(b2@.map_values(|r: Vec<B>| angles_ok(r@)) =~= fb.push(fb.last()));
        },
        _ => {},
    }
    assert(is_state_added(g, f));
    law_adding_a_state_keeps_states_valid(f, g);
    lemma_qubits_alike(g, f, n);
    assert(shape_problems(g) == shape_problems(f));
    assert(model_problems(g) == model_problems(f));
    assert(dissipation_problems(g) == dissipation_problems(f));
    assert(optimisation_problems(g) == optimisation_problems(f));
    assert(!length_problems(g));
    assert(spec_validate(g) =~= Seq::<Seq<char>>::empty());
}

} // verus!
