//! Changing the number of qubits of a configuration: every per-qubit list follows, new qubits copy the last
//! qubit's settings, the coupling matrices stay square, and the targets keep matching the initial states.

use vstd::prelude::*;

use vstd::pervasive::strictly_cloned;

use crate::config::parameters::{Parameters, is_square, opt_len};
use crate::config::{Coverage, Targets, WaveformMode};
use crate::edit::{
    coupling_types, fix_gates, fixed_gate, matched, name_grid, name_lists, opt_view, pad_names, pad_rows, padded,
    resize, resize_matrix, resize_opt, resized, spec_coupling_types, square_row,
};
use crate::hamiltonian::defaults::{qubit_name, qubit_names};
use crate::text::{strings, strs};

verus! {

/// The values new qubits get where there is no last qubit to copy, and the fills of the matrices and angles.
#[derive(Clone, Copy, Debug)]
pub struct QubitFills<F> {
    /// Offset spread.
    pub sigma_delta: F,
    /// Maximum Rabi frequency.
    pub omega_r_max: F,
    /// Rabi frequency spread.
    pub sigma_omega_r_max: F,
    /// Pulse duration.
    pub pulse_duration: F,
    /// Sweep width.
    pub sw: F,
    /// Carrier offset.
    pub pulse_offset: F,
    /// Band width.
    pub pulse_bandwidth: F,
    /// Fraction outside the band.
    pub ratio_factor: F,
    /// T1.
    pub t1: F,
    /// T2.
    pub t2: F,
    /// Anharmonicity.
    pub anharmonicity: F,
    /// AC Stark shift coefficient.
    pub stark: F,
    /// An absent coupling.
    pub zero: F,
    /// The coupling spread given to a configuration that gains a second qubit without one.
    pub sigma_j: F,
    /// The angle of a new rotation.
    pub angle: F,
}

/// The number of qubits asked for, at least one.
pub open spec fn qubit_count(n: nat) -> nat {
    if n == 0 {
        1
    } else {
        n
    }
}

/// The first qubit whose coupling to the one before it is new: the old count, at least one.
pub open spec fn first_new_coupling(old: nat) -> nat {
    if old == 0 {
        1
    } else {
        old
    }
}

/// How many new nearest-neighbour couplings going from `old` to `n` qubits sets.
pub open spec fn new_coupling_count(old: nat, n: nat) -> nat {
    if n > first_new_coupling(old) {
        (n - first_new_coupling(old)) as nat
    } else {
        0
    }
}

/// A list of names cut or extended to `n`: the first `n` names, or all of them followed by copies of the last
/// (of `fill` for an empty list).
pub open spec fn names_resized(old: Seq<String>, new: Seq<String>, n: nat, fill: Seq<char>) -> bool {
    &&& new.len() == n
    &&& forall|i: int| 0 <= i < n && i < old.len() ==> #[trigger] new[i] == old[i]
    &&& forall|i: int| old.len() <= i < n ==> #[trigger] new[i]@ == if old.len() > 0 {
        old.last()@
    } else {
        fill
    }
}

/// A resized list of strings is resized name by name.
proof fn lemma_names_resized(old: Seq<String>, new: Seq<String>, n: nat, fill: String)
    requires
        resized(old, new, n, fill),
    ensures
        names_resized(old, new, n, fill@),
{
    if n > old.len() {
        let f = choose|f: String| #[trigger] crate::edit::filled_from(old, new, n, fill, f);
        assert forall|i: int| old.len() <= i < n implies #[trigger] new[i]@ == if old.len() > 0 {
            old.last()@
        } else {
            fill@
        } by {
            assert(vstd::pervasive::cloned::<String>(f, new[i]));
            if old.len() > 0 {
                assert(vstd::pervasive::cloned::<String>(old.last(), f));
            }
        }
        assert forall|i: int| 0 <= i < n && i < old.len() implies #[trigger] new[i] == old[i] by {
            assert(new.take(old.len() as int)[i] == new[i]);
        }
    }
}

fn resize_names(v: &mut Vec<String>, n: usize, fill: &str)
    ensures
        names_resized(old(v)@, final(v)@, n as nat, fill@),
{
    let f = String::from_str(fill);
    let ghost before = v@;
    resize(v, n, f);
    proof {
        lemma_names_resized(before, v@, n as nat, f);
    }
}

/// `new` has the per-qubit lists of `old` cut or extended to `n` qubits, new qubits copying the last qubit's
/// settings or taking the fills.
pub open spec fn lists_resized<F: Copy>(new: Parameters<F>, old: Parameters<F>, n: nat, fills: QubitFills<F>) -> bool {
    &&& (old.sigma_delta is None ==> new.sigma_delta is None)
    &&& (old.sigma_delta matches Some(o) ==> (new.sigma_delta matches Some(w) && resized(o@, w@, n, fills.sigma_delta)))
    &&& resized(old.omega_r_max@, new.omega_r_max@, n, fills.omega_r_max)
    &&& resized(old.sigma_omega_r_max@, new.sigma_omega_r_max@, n, fills.sigma_omega_r_max)
    &&& resized(old.pulse_duration@, new.pulse_duration@, n, fills.pulse_duration)
    &&& resized(old.point_in_pulse@, new.point_in_pulse@, n, 100usize)
    &&& names_resized(old.wf_type@, new.wf_type@, n, "cheb"@)
    &&& resized(old.wf_mode@, new.wf_mode@, n, WaveformMode::Cart)
    &&& names_resized(old.amplitude_envelope@, new.amplitude_envelope@, n, "gn"@)
    &&& resized(old.amplitude_order@, new.amplitude_order@, n, 1u32)
    &&& resized(old.coverage@, new.coverage@, n, Coverage::Single)
    &&& resized(old.sw@, new.sw@, n, fills.sw)
    &&& resized(old.pulse_offset@, new.pulse_offset@, n, fills.pulse_offset)
    &&& resized(old.pulse_bandwidth@, new.pulse_bandwidth@, n, fills.pulse_bandwidth)
    &&& resized(old.ratio_factor@, new.ratio_factor@, n, fills.ratio_factor)
    &&& resized(old.profile_order@, new.profile_order@, n, 2u32)
    &&& resized(old.n_para@, new.n_para@, n, 16usize)
    &&& (old.t1 is None ==> new.t1 is None)
    &&& (old.t1 matches Some(o) ==> (new.t1 matches Some(w) && resized(o@, w@, n, fills.t1)))
    &&& (old.t2 is None ==> new.t2 is None)
    &&& (old.t2 matches Some(o) ==> (new.t2 matches Some(w) && resized(o@, w@, n, fills.t2)))
    &&& (old.anharmonicities is None ==> new.anharmonicities is None)
    &&& (old.anharmonicities matches Some(o) ==> (new.anharmonicities matches Some(w) && resized(
        o@,
        w@,
        n,
        fills.anharmonicity,
    )))
    &&& (old.stark_shift_coeffs is None ==> new.stark_shift_coeffs is None)
    &&& (old.stark_shift_coeffs matches Some(o) ==> (new.stark_shift_coeffs matches Some(w) && resized(
        o@,
        w@,
        n,
        fills.stark,
    )))
}

fn resize_lists<F: Copy>(p: &mut Parameters<F>, n: usize, fills: QubitFills<F>)
    ensures
        lists_resized(*final(p), *old(p), n as nat, fills),
        final(p).delta == old(p).delta,
        final(p).j == old(p).j,
        final(p).zz_crosstalk == old(p).zz_crosstalk,
        final(p).coupling_type == old(p).coupling_type,
        final(p).sigma_j == old(p).sigma_j,
{
    resize_opt(&mut p.sigma_delta, n, fills.sigma_delta);
    resize(&mut p.omega_r_max, n, fills.omega_r_max);
    resize(&mut p.sigma_omega_r_max, n, fills.sigma_omega_r_max);
    resize(&mut p.pulse_duration, n, fills.pulse_duration);
    resize(&mut p.point_in_pulse, n, 100usize);
    resize_names(&mut p.wf_type, n, "cheb");
    resize(&mut p.wf_mode, n, WaveformMode::Cart);
    resize_names(&mut p.amplitude_envelope, n, "gn");
    resize(&mut p.amplitude_order, n, 1u32);
    resize(&mut p.coverage, n, Coverage::Single);
    resize(&mut p.sw, n, fills.sw);
    resize(&mut p.pulse_offset, n, fills.pulse_offset);
    resize(&mut p.pulse_bandwidth, n, fills.pulse_bandwidth);
    resize(&mut p.ratio_factor, n, fills.ratio_factor);
    resize(&mut p.profile_order, n, 2u32);
    resize(&mut p.n_para, n, 16usize);
    resize_opt(&mut p.t1, n, fills.t1);
    resize_opt(&mut p.t2, n, fills.t2);
    resize_opt(&mut p.anharmonicities, n, fills.anharmonicity);
    resize_opt(&mut p.stark_shift_coeffs, n, fills.stark);
}

fn extend_delta<F: Copy>(d: &mut Vec<F>, new_deltas: &Vec<F>, n: usize)
    requires
        old(d)@.len() + new_deltas@.len() >= n,
    ensures
        final(d)@ == (old(d)@ + new_deltas@).take(n as int),
{
    let ghost start = d@;
    let mut i: usize = 0;
    while d.len() < n
        invariant
            start.len() + new_deltas@.len() >= n,
            i <= new_deltas@.len(),
            d@ == start + new_deltas@.take(i as int),
            i > 0 ==> d@.len() <= n,
        decreases n - d@.len(),
    {
        d.push(new_deltas[i]);
        i = i + 1;
        assert(d@ =~= start + new_deltas@.take(i as int));
    }
    d.truncate(n);
    assert(d@ =~= (start + new_deltas@).take(n as int));
}

/// Entry `(r, c)` of the `n × n` coupling matrix made from `old_j`: the couplings of qubit `c` to qubit `c - 1`
/// for the new qubits from `start` on, the old entries elsewhere, and `zero` where there were none.
pub open spec fn new_coupling_at<F>(
    old_j: Seq<Vec<F>>,
    n: nat,
    zero: F,
    start: nat,
    couplings: Seq<F>,
    r: int,
    c: int,
) -> F {
    if start <= c < n && r == c - 1 {
        couplings[c - start]
    } else {
        square_row(old_j, n, zero, r)[c]
    }
}

fn extend_couplings<F: Copy>(j: &mut Vec<Vec<F>>, n: usize, start: usize, couplings: &Vec<F>, zero: F)
    requires
        start >= 1,
        couplings@.len() == if n > start { (n - start) as nat } else { 0 },
    ensures
        final(j)@.len() == n,
        forall|r: int| 0 <= r < n ==> (#[trigger] final(j)@[r])@.len() == n,
        forall|r: int, c: int|
            0 <= r < n && 0 <= c < n ==> #[trigger] final(j)@[r]@[c] == new_coupling_at(
                old(j)@,
                n as nat,
                zero,
                start as nat,
                couplings@,
                r,
                c,
            ),
{
    let ghost before = j@;
    resize_matrix(j, n, zero);
    let mut i: usize = start;
    while i < n
        invariant
            start >= 1,
            couplings@.len() == if n > start { (n - start) as nat } else { 0 },
            start <= i,
            i <= n || i == start,
            j@.len() == n,
            forall|r: int| 0 <= r < n ==> (#[trigger] j@[r])@.len() == n,
            forall|r: int, c: int|
                0 <= r < n && 0 <= c < n ==> #[trigger] j@[r]@[c] == if start <= c < i && r == c - 1 {
                    couplings@[c - start]
                } else {
                    square_row(before, n as nat, zero, r)[c]
                },
        decreases n - i,
    {
        let ghost prev = j@;
        let mut row = j.remove(i - 1);
        row.set(i, couplings[i - start]);
        j.insert(i - 1, row);
        proof {
            assert forall|r: int| 0 <= r < n implies (#[trigger] j@[r])@.len() == n by {
                if r != i - 1 {
                    assert(j@[r] == prev[r]);
                }
            }
            assert forall|r: int, c: int| 0 <= r < n && 0 <= c < n implies #[trigger] j@[r]@[c] == if start <= c < i
                + 1 && r == c - 1 {
                couplings@[c - start]
            } else {
                square_row(before, n as nat, zero, r)[c]
            } by {
                if r != i - 1 {
                    assert(j@[r] == prev[r]);
                }
            }
        }
        i = i + 1;
    }
}

/// `new` is the targets `old` fitted to `n` qubits for `k` initial states: axes and rotations cut or padded
/// (with `-Z`, `x` and `angle`), gates not defined for `n` qubits replaced by the first that is, or - with no
/// gate defined for `n` qubits - every initial state aiming at every qubit along `-Z`.
pub open spec fn targets_fitted<F>(new: Targets<F>, old: Targets<F>, n: nat, k: nat, valid: Seq<Seq<char>>, angle: F) -> bool {
    match old {
        Targets::Axis(a) => match new {
            Targets::Axis(a2) => a2@.len() == a@.len() && forall|i: int|
                0 <= i < a@.len() ==> #[trigger] strings(a2@[i]@) == padded(strings(a@[i]@), n, "-Z"@),
            _ => false,
        },
        Targets::PhiBeta { phi, beta } => match new {
            Targets::PhiBeta { phi: p2, beta: b2 } => {
                &&& p2@.len() == phi@.len()
                &&& forall|i: int|
                    0 <= i < phi@.len() ==> #[trigger] strings(p2@[i]@) == padded(strings(phi@[i]@), n, "x"@)
                &&& b2@.len() == beta@.len()
                &&& forall|i: int| 0 <= i < beta@.len() ==> #[trigger] b2@[i]@ == padded(beta@[i]@, n, angle)
            },
            _ => false,
        },
        Targets::Gate(g) => if valid.len() > 0 {
            match new {
                Targets::Gate(g2) => strings(g2@) == strings(g@).map_values(|x: Seq<char>| fixed_gate(x, valid)),
                _ => false,
            }
        } else {
            match new {
                Targets::Axis(a2) => name_grid(a2@, k, n, "-Z"@),
                _ => false,
            }
        },
    }
}

fn fit_targets<F: Copy>(targets: &mut Targets<F>, n: usize, k: usize, valid: &Vec<String>, angle: F)
    ensures
        targets_fitted(*final(targets), *old(targets), n as nat, k as nat, strings(valid@), angle),
{
    let fallback = match targets {
        Targets::Axis(axes) => {
            pad_names(axes, n, "-Z");
            false
        },
        Targets::PhiBeta { phi, beta } => {
            pad_names(phi, n, "x");
            pad_rows(beta, n, angle);
            false
        },
        Targets::Gate(gates) => !fix_gates(gates, valid),
    };
    if fallback {
        *targets = Targets::Axis(name_lists("-Z", n, k));
    }
}

/// The old coupling matrix, or none.
pub open spec fn old_couplings<F>(j: Option<Vec<Vec<F>>>) -> Seq<Vec<F>> {
    match j {
        Some(m) => m@,
        None => Seq::empty(),
    }
}

/// Set the number of qubits to `n` (at least one): the qubits are renamed `q1` onwards; every per-qubit list is
/// cut, or extended by copies of the last qubit's setting (the fills for an empty list); the offsets are extended
/// by `new_deltas`; the coupling matrix becomes square, each new qubit coupled to the one before by
/// `new_couplings` in order; the crosstalk matrix stays square; a configuration gaining a second qubit gets the
/// model's first coupling type and the fill coupling spread where it has none; the initial states are cut or
/// padded with `Z`; and the targets are fitted (see [`targets_fitted`]) with `gate_names` the gates defined for
/// the new count.  Targets that matched the initial states still match them.
pub fn set_qubit_count<F: Copy>(
    p: &mut Parameters<F>,
    qubits: &mut Vec<String>,
    initial_states: &mut Vec<Vec<String>>,
    targets: &mut Targets<F>,
    model: Option<&str>,
    n: usize,
    gate_names: &Vec<String>,
    fills: QubitFills<F>,
    new_deltas: Vec<F>,
    new_couplings: Vec<F>,
)
    requires
        old(p).delta matches Some(d) ==> d@.len() + new_deltas@.len() >= qubit_count(n as nat),
        new_couplings@.len() == new_coupling_count(old(qubits)@.len(), qubit_count(n as nat)),
    ensures
        final(qubits)@.len() == qubit_count(n as nat),
        forall|i: int| 0 <= i < qubit_count(n as nat) ==> #[trigger] final(qubits)@[i]@ == qubit_name(i as nat),
        lists_resized(*final(p), *old(p), qubit_count(n as nat), fills),
        old(p).delta is None ==> final(p).delta is None,
        old(p).delta matches Some(d) ==> (final(p).delta matches Some(d2) && d2@ == (d@ + new_deltas@).take(
            qubit_count(n as nat) as int,
        )),
        final(p).j matches Some(j2) && j2@.len() == qubit_count(n as nat) && (forall|r: int, c: int|
            0 <= r < qubit_count(n as nat) && 0 <= c < qubit_count(n as nat) ==> #[trigger] j2@[r]@[c]
                == new_coupling_at(
                old_couplings(old(p).j),
                qubit_count(n as nat),
                fills.zero,
                first_new_coupling(old(qubits)@.len()),
                new_couplings@,
                r,
                c,
            )),
        old(p).zz_crosstalk is None ==> final(p).zz_crosstalk is None,
        old(p).zz_crosstalk matches Some(z) ==> (final(p).zz_crosstalk matches Some(z2) && z2@.len() == qubit_count(
            n as nat,
        ) && forall|r: int|
            0 <= r < qubit_count(n as nat) ==> #[trigger] z2@[r]@ == square_row(z@, qubit_count(n as nat), fills.zero, r)),
        qubit_count(n as nat) > 1 && old(p).coupling_type is None ==> (final(p).coupling_type matches Some(c) && c@
            == spec_coupling_types(opt_view(model))[0]),
        !(qubit_count(n as nat) > 1 && old(p).coupling_type is None) ==> final(p).coupling_type == old(p).coupling_type,
        qubit_count(n as nat) > 1 && old(p).sigma_j is None ==> final(p).sigma_j == Some(fills.sigma_j),
        !(qubit_count(n as nat) > 1 && old(p).sigma_j is None) ==> final(p).sigma_j == old(p).sigma_j,
        final(initial_states)@.len() == old(initial_states)@.len(),
        forall|i: int|
            0 <= i < old(initial_states)@.len() ==> #[trigger] strings(final(initial_states)@[i]@) == padded(
                strings(old(initial_states)@[i]@),
                qubit_count(n as nat),
                "Z"@,
            ),
        targets_fitted(
            *final(targets),
            *old(targets),
            qubit_count(n as nat),
            old(initial_states)@.len(),
            strings(gate_names@),
            fills.angle,
        ),
        final(p).per_qubit(qubit_count(n as nat)),
        matched(old(initial_states)@, *old(targets)) ==> matched(final(initial_states)@, *final(targets)),
{
    let count = if n == 0 {
        1
    } else {
        n
    };
    let old_count = qubits.len();
    let start = if old_count == 0 {
        1
    } else {
        old_count
    };
    *qubits = qubit_names(count);
    match &mut p.delta {
        Some(d) => extend_delta(d, &new_deltas, count),
        None => {},
    }
    resize_lists(p, count, fills);
    let mut j = match p.j.take() {
        Some(m) => m,
        None => Vec::new(),
    };
    extend_couplings(&mut j, count, start, &new_couplings, fills.zero);
    p.j = Some(j);
    match &mut p.zz_crosstalk {
        Some(z) => resize_matrix(z, count, fills.zero),
        None => {},
    }
    if count > 1 && p.coupling_type.is_none() {
        let types = coupling_types(model);
        assert(strs(types@).len() == types@.len());
        assert(strs(types@)[0] == types@[0]@);
        p.coupling_type = Some(String::from_str(types[0]));
    }
    if count > 1 && p.sigma_j.is_none() {
        p.sigma_j = Some(fills.sigma_j);
    }
    let k = initial_states.len();
    pad_names(initial_states, count, "Z");
    let ghost old_t = *targets;
    let ghost old_states_len = k;
    fit_targets(targets, count, k, gate_names, fills.angle);
    let ghost new_t = *targets;
    proof {
        match old_t {
            Targets::Gate(g) => {
                assert(strings(g@).len() == g@.len());
                match new_t {
                    Targets::Gate(g2) => {
                        assert(strings(g2@).len() == g2@.len());
                    },
                    _ => {},
                }
            },
            _ => {},
        }
        assert(initial_states@.len() == old_states_len);
        let m = count as nat;
        let np = *p;
        assert(np.per_qubit(m));
    }
}

} // verus!
