//! Edits that keep a configuration consistent, and the names an interface shows: every per-qubit list as long
//! as the qubit list, targets matching the initial states, the coupling types each model accepts.

use vstd::prelude::*;

use vstd::pervasive::strictly_cloned;

use crate::config::Targets;
use crate::text::{char_to_uppercase, char_upper_form, contains_string, decimal, decimal_string, str_eq, strings, strs};

verus! {

/// Target methods, as the interface names them.
#[derive(Clone, Copy, Debug, PartialEq, Eq, Structural)]
pub enum TargetMethod {
    /// A product state per initial state.
    Axis,
    /// A gate per initial state.
    Gate,
    /// A rotation per qubit per initial state.
    Rotation,
}

impl TargetMethod {
    /// The method a target uses.
    pub open spec fn spec_of<B>(targets: Targets<B>) -> TargetMethod {
        match targets {
            Targets::Axis(_) => TargetMethod::Axis,
            Targets::Gate(_) => TargetMethod::Gate,
            Targets::PhiBeta { .. } => TargetMethod::Rotation,
        }
    }

    /// The method `targets` uses.
    pub fn of<B>(targets: &Targets<B>) -> (m: TargetMethod)
        ensures
            m == Self::spec_of(*targets),
    {
        match targets {
            Targets::Axis(_) => TargetMethod::Axis,
            Targets::Gate(_) => TargetMethod::Gate,
            Targets::PhiBeta { .. } => TargetMethod::Rotation,
        }
    }

    /// Label for the interface.
    pub open spec fn spec_label(self) -> Seq<char> {
        match self {
            TargetMethod::Axis => "State"@,
            TargetMethod::Gate => "Gate"@,
            TargetMethod::Rotation => "Rotation"@,
        }
    }

    /// Label for the interface.
    pub fn label(self) -> (s: &'static str)
        ensures
            s@ == self.spec_label(),
    {
        match self {
            TargetMethod::Axis => "State",
            TargetMethod::Gate => "Gate",
            TargetMethod::Rotation => "Rotation",
        }
    }
}

/// Coupling types the model accepts, the first being its default.
pub open spec fn spec_coupling_types(model: Option<Seq<char>>) -> Seq<Seq<char>> {
    match model {
        Some(m) => if m == "superconducting"@ {
            seq!["XY"@, "ZZ"@, "XY+ZZ"@]
        } else if m == "duffing_transmon"@ {
            seq!["XY"@]
        } else {
            seq!["XY"@, "Z"@, "XYZ"@]
        },
        None => seq!["Z"@, "XY"@, "XYZ"@],
    }
}

/// The view of an optional name.
pub open spec fn opt_view(model: Option<&str>) -> Option<Seq<char>> {
    match model {
        Some(m) => Some(m@),
        None => None,
    }
}

/// Coupling types the model accepts, the first being its default.  `None` is the legacy spin-chain path.
pub fn coupling_types(model: Option<&str>) -> (types: &'static [&'static str])
    ensures
        strs(types@) == spec_coupling_types(opt_view(model)),
{
    match model {
        Some(m) => {
            if str_eq(m, "superconducting") {
                let t: &'static [&'static str] = &["XY", "ZZ", "XY+ZZ"];
                assert(strs(t@) =~= spec_coupling_types(opt_view(model)));
                t
            } else if str_eq(m, "duffing_transmon") {
                let t: &'static [&'static str] = &["XY"];
                assert(strs(t@) =~= spec_coupling_types(opt_view(model)));
                t
            } else {
                let t: &'static [&'static str] = &["XY", "Z", "XYZ"];
                assert(strs(t@) =~= spec_coupling_types(opt_view(model)));
                t
            }
        },
        None => {
            let t: &'static [&'static str] = &["Z", "XY", "XYZ"];
            assert(strs(t@) =~= spec_coupling_types(opt_view(model)));
            t
        },
    }
}

/// The interface's name for a model.
pub open spec fn spec_model_label(model: Option<Seq<char>>) -> Seq<char> {
    match model {
        None => "Spin chain (original)"@,
        Some(m) => if m == "spin_chain"@ {
            "Spin chain"@
        } else if m == "superconducting"@ {
            "Transmons, two levels"@
        } else if m == "duffing_transmon"@ {
            "Transmons, three levels"@
        } else {
            "Unknown"@
        },
    }
}

/// The interface's name for a model.
pub fn model_label(model: Option<&str>) -> (s: &'static str)
    ensures
        s@ == spec_model_label(opt_view(model)),
{
    match model {
        None => "Spin chain (original)",
        Some(m) => {
            if str_eq(m, "spin_chain") {
                "Spin chain"
            } else if str_eq(m, "superconducting") {
                "Transmons, two levels"
            } else if str_eq(m, "duffing_transmon") {
                "Transmons, three levels"
            } else {
                "Unknown"
            }
        },
    }
}

/// What `resize` leaves in `new` from `old`: the first `n` entries, or all of them followed by copies of the
/// last entry - of `fill` for an empty list - up to `n`.
pub open spec fn resized<T: Clone>(old: Seq<T>, new: Seq<T>, n: nat, fill: T) -> bool {
    if n <= old.len() {
        new == old.take(n as int)
    } else {
        &&& new.len() == n
        &&& new.take(old.len() as int) == old
        &&& exists|f: T| #[trigger] filled_from(old, new, n, fill, f)
    }
}

/// `new` continues `old` up to `n` with copies of `f`, itself a copy of the last entry of `old`, or `fill` if
/// `old` is empty.
pub open spec fn filled_from<T: Clone>(old: Seq<T>, new: Seq<T>, n: nat, fill: T, f: T) -> bool {
    &&& (old.len() > 0 ==> cloned::<T>(old.last(), f))
    &&& (old.len() == 0 ==> f == fill)
    &&& forall|i: int| old.len() <= i < n ==> cloned::<T>(f, #[trigger] new[i])
}

/// Set the length of `v` to `n`, repeating its last entry, or `fill` if it is empty.
pub fn resize<T: Clone>(v: &mut Vec<T>, n: usize, fill: T)
    ensures
        resized(old(v)@, final(v)@, n as nat, fill),
{
    let ghost before = v@;
    let f = if v.len() > 0 {
        let last = v[v.len() - 1].clone();
        assert(strictly_cloned::<T>(before.last(), last));
        last
    } else {
        fill
    };
    v.resize(n, f);
    proof {
        if n > before.len() {
            assert(forall|i: int| before.len() <= i < n ==> cloned::<T>(f, #[trigger] v@[i]));
            assert(filled_from(before, v@, n as nat, fill, f));
        }
    }
}

/// [`resize`] for a list that may be absent.
pub fn resize_opt<T: Clone>(v: &mut Option<Vec<T>>, n: usize, fill: T)
    ensures
        *old(v) is None ==> *final(v) is None,
        *old(v) matches Some(o) ==> (*final(v) matches Some(w) && resized(o@, w@, n as nat, fill)),
{
    match v {
        Some(inner) => resize(inner, n, fill),
        None => {},
    }
}

/// The default target axes for one initial state with `n` qubits: every qubit along `-Z`.
pub fn default_axis(n: usize) -> (axes: Vec<String>)
    ensures
        axes@.len() == n,
        forall|i: int| 0 <= i < n ==> #[trigger] axes@[i]@ == "-Z"@,
{
    let mut axes: Vec<String> = Vec::new();
    let mut i: usize = 0;
    while i < n
        invariant
            i <= n,
            axes@.len() == i,
            forall|k: int| 0 <= k < i ==> #[trigger] axes@[k]@ == "-Z"@,
        decreases n - i,
    {
        axes.push(String::from_str("-Z"));
        i = i + 1;
    }
    axes
}

/// `s` with its first character in upper case.
pub open spec fn spec_capitalise(s: Seq<char>) -> Seq<char> {
    if s.len() == 0 {
        Seq::empty()
    } else {
        char_upper_form(s[0]) + s.subrange(1, s.len() as int)
    }
}

/// `s` with its first character in upper case.
pub fn capitalise(s: &str) -> (r: String)
    ensures
        r@ == spec_capitalise(s@),
{
    let n = s.unicode_len();
    if n == 0 {
        return String::new();
    }
    let mut r = char_to_uppercase(s.get_char(0));
    r.append(s.substring_char(1, n));
    r
}

/// Resizing gives a list of exactly the length asked for, which starts with the old list's entries as far as
/// both reach; resizing to the current length changes nothing.
pub proof fn law_resize_keeps_prefix<T: Clone>(old: Seq<T>, new: Seq<T>, n: nat, fill: T)
    requires
        resized(old, new, n, fill),
    ensures
        new.len() == n,
        n <= old.len() ==> new == old.take(n as int),
        n > old.len() ==> new.take(old.len() as int) == old,
        n == old.len() ==> new == old,
{
    if n == old.len() {
        assert(old.take(n as int) =~= old);
    }
}

/// `old` cut or extended with `fill` to exactly `n` entries.
pub open spec fn padded<T>(old: Seq<T>, n: nat, fill: T) -> Seq<T> {
    Seq::new(n, |j: int| if j < old.len() { old[j] } else { fill })
}

/// Cut `row` to `n` entries, or extend it with `fill` up to `n`.
pub fn pad_row<T: Copy>(row: &mut Vec<T>, n: usize, fill: T)
    ensures
        final(row)@ == padded(old(row)@, n as nat, fill),
{
    let ghost before = row@;
    row.truncate(n);
    while row.len() < n
        invariant
            row@.len() <= n,
            row@.len() >= if before.len() < n { before.len() } else { n as nat },
            forall|j: int| 0 <= j < row@.len() ==> #[trigger] row@[j] == padded(before, n as nat, fill)[j],
        decreases n - row@.len(),
    {
        row.push(fill);
    }
    assert(row@ =~= padded(before, n as nat, fill));
}

/// Cut or extend every row of `rows` to `n` entries, extending with `fill`; the number of rows stays.
pub fn pad_rows<T: Copy>(rows: &mut Vec<Vec<T>>, n: usize, fill: T)
    ensures
        final(rows)@.len() == old(rows)@.len(),
        forall|i: int| 0 <= i < old(rows)@.len() ==> #[trigger] final(rows)@[i]@ == padded(old(rows)@[i]@, n as nat, fill),
{
    let ghost before = rows@;
    let mut i: usize = 0;
    while i < rows.len()
        invariant
            rows@.len() == before.len(),
            i <= rows@.len(),
            forall|k: int| 0 <= k < i ==> #[trigger] rows@[k]@ == padded(before[k]@, n as nat, fill),
            forall|k: int| i <= k < rows@.len() ==> #[trigger] rows@[k] == before[k],
        decreases rows@.len() - i,
    {
        let mut row = rows.remove(i);
        pad_row(&mut row, n, fill);
        rows.insert(i, row);
        i = i + 1;
    }
}

/// The rows of an `n × n` matrix made from `old`: its first `n` rows, then empty ones, each cut or extended
/// with `zero` to `n` entries.
pub open spec fn square_row<T>(old: Seq<Vec<T>>, n: nat, zero: T, i: int) -> Seq<T> {
    padded(if i < old.len() { old[i]@ } else { Seq::empty() }, n, zero)
}

/// Make `m` an `n × n` matrix: keep the first `n` rows and columns, and fill what is new with `zero`.
pub fn resize_matrix<T: Copy>(m: &mut Vec<Vec<T>>, n: usize, zero: T)
    ensures
        final(m)@.len() == n,
        forall|i: int| 0 <= i < n ==> #[trigger] final(m)@[i]@ == square_row(old(m)@, n as nat, zero, i),
{
    let ghost before = m@;
    m.truncate(n);
    while m.len() < n
        invariant
            m@.len() <= n,
            m@.len() >= if before.len() < n { before.len() } else { n as nat },
            forall|i: int| 0 <= i < m@.len() && i < before.len() ==> #[trigger] m@[i] == before[i],
            forall|i: int| before.len() <= i < m@.len() ==> #[trigger] m@[i]@ == Seq::<T>::empty(),
        decreases n - m@.len(),
    {
        m.push(Vec::new());
    }
    pad_rows(m, n, zero);
}

/// Cut or extend every list of `lists` to `n` names, extending with `fill`; the number of lists stays.
pub fn pad_names(lists: &mut Vec<Vec<String>>, n: usize, fill: &str)
    ensures
        final(lists)@.len() == old(lists)@.len(),
        forall|i: int| 0 <= i < old(lists)@.len() ==> #[trigger] strings(final(lists)@[i]@) == padded(
            strings(old(lists)@[i]@),
            n as nat,
            fill@,
        ),
{
    let ghost before = lists@;
    let mut i: usize = 0;
    while i < lists.len()
        invariant
            lists@.len() == before.len(),
            i <= lists@.len(),
            forall|k: int| 0 <= k < i ==> #[trigger] strings(lists@[k]@) == padded(strings(before[k]@), n as nat, fill@),
            forall|k: int| i <= k < lists@.len() ==> #[trigger] lists@[k] == before[k],
        decreases lists@.len() - i,
    {
        let mut row = lists.remove(i);
        let ghost start = row@;
        row.truncate(n);
        while row.len() < n
            invariant
                row@.len() <= n,
                row@.len() >= if start.len() < n { start.len() } else { n as nat },
                forall|j: int| 0 <= j < row@.len() ==> #[trigger] row@[j]@ == padded(strings(start), n as nat, fill@)[j],
            decreases n - row@.len(),
        {
            row.push(String::from_str(fill));
        }
        assert(strings(row@) =~= padded(strings(start), n as nat, fill@));
        lists.insert(i, row);
        i = i + 1;
    }
}

/// A gate kept if it is one of `valid`, replaced by the first valid gate otherwise.
pub open spec fn fixed_gate(g: Seq<char>, valid: Seq<Seq<char>>) -> Seq<char> {
    if valid.contains(g) {
        g
    } else {
        valid[0]
    }
}

/// Replace each gate that is not one of `valid` by the first valid gate.  With no valid gate the gates are left
/// as they are and the result is `false`: the caller then falls back to state targets.
pub fn fix_gates(gates: &mut Vec<String>, valid: &Vec<String>) -> (done: bool)
    ensures
        done == (valid@.len() > 0),
        !done ==> final(gates)@ == old(gates)@,
        done ==> strings(final(gates)@) == strings(old(gates)@).map_values(
            |g: Seq<char>| fixed_gate(g, strings(valid@)),
        ),
{
    if valid.len() == 0 {
        return false;
    }
    let ghost before = gates@;
    let mut i: usize = 0;
    while i < gates.len()
        invariant
            valid@.len() > 0,
            gates@.len() == before.len(),
            i <= gates@.len(),
            forall|k: int| 0 <= k < i ==> #[trigger] gates@[k]@ == fixed_gate(before[k]@, strings(valid@)),
            forall|k: int| i <= k < gates@.len() ==> #[trigger] gates@[k] == before[k],
        decreases gates@.len() - i,
    {
        if !contains_string(valid, gates[i].as_str()) {
            let first = valid[0].clone();
            gates.set(i, first);
        }
        i = i + 1;
    }
    assert(strings(gates@) =~= strings(before).map_values(|g: Seq<char>| fixed_gate(g, strings(valid@))));
    true
}

/// The targets match the initial states: one target per initial state, and as many angle lists as axis lists.
pub open spec fn matched<B>(initial_states: Seq<Vec<String>>, targets: Targets<B>) -> bool {
    targets.spec_len() == initial_states.len() && targets.spec_paired()
}

/// `n` copies of `x`.
pub open spec fn copies<T>(x: T, n: nat) -> Seq<T> {
    Seq::new(n, |_j: int| x)
}

/// `k` lists, each of `n` copies of the name `name`.
pub open spec fn name_grid(v: Seq<Vec<String>>, k: nat, n: nat, name: Seq<char>) -> bool {
    &&& v.len() == k
    &&& forall|i: int| 0 <= i < k ==> #[trigger] strings(v[i]@) == copies(name, n)
}

/// `k` lists, each of `n` copies of `x`.
pub open spec fn value_grid<T>(v: Seq<Vec<T>>, k: nat, n: nat, x: T) -> bool {
    &&& v.len() == k
    &&& forall|i: int| 0 <= i < k ==> #[trigger] v[i]@ == copies(x, n)
}

/// `n` copies of the name `name`.
pub fn repeat_name(name: &str, n: usize) -> (v: Vec<String>)
    ensures
        strings(v@) == copies(name@, n as nat),
{
    let mut v: Vec<String> = Vec::new();
    while v.len() < n
        invariant
            v@.len() <= n,
            forall|j: int| 0 <= j < v@.len() ==> #[trigger] v@[j]@ == name@,
        decreases n - v@.len(),
    {
        v.push(String::from_str(name));
    }
    assert(strings(v@) =~= copies(name@, n as nat));
    v
}

/// `n` copies of `x`.
pub fn repeat_value<T: Copy>(x: T, n: usize) -> (v: Vec<T>)
    ensures
        v@ == copies(x, n as nat),
{
    let mut v: Vec<T> = Vec::new();
    while v.len() < n
        invariant
            v@.len() <= n,
            forall|j: int| 0 <= j < v@.len() ==> #[trigger] v@[j] == x,
        decreases n - v@.len(),
    {
        v.push(x);
    }
    assert(v@ =~= copies(x, n as nat));
    v
}

pub(crate) fn name_lists(name: &str, n: usize, k: usize) -> (v: Vec<Vec<String>>)
    ensures
        name_grid(v@, k as nat, n as nat, name@),
{
    let mut v: Vec<Vec<String>> = Vec::new();
    while v.len() < k
        invariant
            v@.len() <= k,
            forall|i: int| 0 <= i < v@.len() ==> #[trigger] strings(v@[i]@) == copies(name@, n as nat),
        decreases k - v@.len(),
    {
        v.push(repeat_name(name, n));
    }
    v
}

fn value_lists<T: Copy>(x: T, n: usize, k: usize) -> (v: Vec<Vec<T>>)
    ensures
        value_grid(v@, k as nat, n as nat, x),
{
    let mut v: Vec<Vec<T>> = Vec::new();
    while v.len() < k
        invariant
            v@.len() <= k,
            forall|i: int| 0 <= i < v@.len() ==> #[trigger] v@[i]@ == copies(x, n as nat),
        decreases k - v@.len(),
    {
        v.push(repeat_value(x, n));
    }
    v
}

fn copy_values<T: Copy>(v: &Vec<T>) -> (c: Vec<T>)
    ensures
        c@ == v@,
{
    let mut c: Vec<T> = Vec::new();
    let mut i: usize = 0;
    while i < v.len()
        invariant
            i <= v@.len(),
            c@ == v@.take(i as int),
        decreases v@.len() - i,
    {
        c.push(v[i]);
        i = i + 1;
        assert(c@ =~= v@.take(i as int));
    }
    assert(v@.take(v@.len() as int) =~= v@);
    c
}

/// Change the target method for `k` initial states of `n` qubits, with a sensible target for each: every qubit
/// along `-Z`, or the first gate for `n` qubits (`gate`), or a rotation about `x` by `angle`.  With no gate for
/// `n` qubits, asking for gates leaves the targets as they are.
pub fn set_target_method<B: Copy>(
    targets: &mut Targets<B>,
    n: usize,
    k: usize,
    method: TargetMethod,
    gate: Option<&str>,
    angle: B,
)
    ensures
        method == TargetMethod::Axis ==> (*final(targets) matches Targets::Axis(a) && name_grid(
            a@,
            k as nat,
            n as nat,
            "-Z"@,
        )),
        method == TargetMethod::Gate ==> (gate matches Some(g) ==> (*final(targets) matches Targets::Gate(v)
            && strings(v@) == copies(g@, k as nat))),
        method == TargetMethod::Gate && gate is None ==> *final(targets) == *old(targets),
        method == TargetMethod::Rotation ==> (*final(targets) matches Targets::PhiBeta { phi, beta } && name_grid(
            phi@,
            k as nat,
            n as nat,
            "x"@,
        ) && value_grid(beta@, k as nat, n as nat, angle)),
        method != TargetMethod::Gate || gate is Some ==> (final(targets).spec_len() == k
            && final(targets).spec_paired()),
{
    match method {
        TargetMethod::Axis => {
            *targets = Targets::Axis(name_lists("-Z", n, k));
        },
        TargetMethod::Gate => {
            match gate {
                Some(g) => {
                    *targets = Targets::Gate(repeat_name(g, k));
                },
                None => {},
            }
        },
        TargetMethod::Rotation => {
            *targets = Targets::PhiBeta { phi: name_lists("x", n, k), beta: value_lists(angle, n, k) };
        },
    }
}

/// `new` is `old` with one more target: a copy of the last one, or a default for `n` qubits when there is none -
/// every qubit along `-Z`, the name in `gate` (or an empty name), or a rotation about `x` by `angle`.
pub open spec fn is_addition<B>(new: Targets<B>, old: Targets<B>, n: nat, gate: Option<Seq<char>>, angle: B) -> bool {
    match (new, old) {
        (Targets::Axis(a2), Targets::Axis(a)) => {
            &&& a2@.len() == a@.len() + 1
            &&& a2@.drop_last() =~= a@
            &&& strings(a2@.last()@) == if a@.len() > 0 {
                strings(a@.last()@)
            } else {
                copies("-Z"@, n)
            }
        },
        (Targets::Gate(g2), Targets::Gate(g)) => {
            &&& g2@.len() == g@.len() + 1
            &&& g2@.drop_last() =~= g@
            &&& g2@.last()@ == if g@.len() > 0 {
                g@.last()@
            } else {
                match gate {
                    Some(d) => d,
                    None => Seq::<char>::empty(),
                }
            }
        },
        (Targets::PhiBeta { phi: p2, beta: b2 }, Targets::PhiBeta { phi: p, beta: b }) => {
            &&& p2@.len() == p@.len() + 1
            &&& p2@.drop_last() =~= p@
            &&& strings(p2@.last()@) == if p@.len() > 0 {
                strings(p@.last()@)
            } else {
                copies("x"@, n)
            }
            &&& b2@.len() == b@.len() + 1
            &&& b2@.drop_last() =~= b@
            &&& b2@.last()@ == if b@.len() > 0 {
                b@.last()@
            } else {
                copies(angle, n)
            }
        },
        _ => false,
    }
}

/// The view of an optional name.
pub open spec fn opt_name(gate: Option<&str>) -> Option<Seq<char>> {
    match gate {
        Some(g) => Some(g@),
        None => None,
    }
}

/// Add an initial state of `n` qubits, all along `Z`, with a matching target: a copy of the last target, or a
/// default one (see [`is_addition`]).  Targets that matched the initial states still match them.
pub fn add_initial_state<B: Copy>(
    initial_states: &mut Vec<Vec<String>>,
    targets: &mut Targets<B>,
    n: usize,
    gate: Option<&str>,
    angle: B,
)
    ensures
        final(initial_states)@.len() == old(initial_states)@.len() + 1,
        final(initial_states)@.drop_last() == old(initial_states)@,
        strings(final(initial_states)@.last()@) == copies("Z"@, n as nat),
        is_addition(*final(targets), *old(targets), n as nat, opt_name(gate), angle),
        matched(old(initial_states)@, *old(targets)) ==> matched(final(initial_states)@, *final(targets)),
{
    initial_states.push(repeat_name("Z", n));
    match targets {
        Targets::Axis(a) => {
            let next = if a.len() > 0 {
                let c = a[a.len() - 1].clone();
                proof {
                    let last = a@[a@.len() - 1];
                    assert forall|j: int| 0 <= j < c@.len() implies #[trigger] c@[j] == last@[j] by {
                        assert(cloned::<String>(last[j], c[j]));
                    }
                    assert(strings(c@) =~= strings(last@));
                }
                c
            } else {
                repeat_name("-Z", n)
            };
            a.push(next);
        },
        Targets::Gate(g) => {
            let next = if g.len() > 0 {
                g[g.len() - 1].clone()
            } else {
                match gate {
                    Some(d) => String::from_str(d),
                    None => String::new(),
                }
            };
            g.push(next);
        },
        Targets::PhiBeta { phi, beta } => {
            let next_phi = if phi.len() > 0 {
                let c = phi[phi.len() - 1].clone();
                proof {
                    let last = phi@[phi@.len() - 1];
                    assert forall|j: int| 0 <= j < c@.len() implies #[trigger] c@[j] == last@[j] by {
                        assert(cloned::<String>(last[j], c[j]));
                    }
                    assert(strings(c@) =~= strings(last@));
                }
                c
            } else {
                repeat_name("x", n)
            };
            phi.push(next_phi);
            let next_beta = if beta.len() > 0 {
                copy_values(&beta[beta.len() - 1])
            } else {
                repeat_value(angle, n)
            };
            beta.push(next_beta);
        },
    }
}

/// `new` is `old` without target `i`.
pub open spec fn is_removal<B>(new: Targets<B>, old: Targets<B>, i: int) -> bool {
    match (new, old) {
        (Targets::Axis(a2), Targets::Axis(a)) => a2@ == a@.remove(i),
        (Targets::Gate(g2), Targets::Gate(g)) => g2@ == g@.remove(i),
        (Targets::PhiBeta { phi: p2, beta: b2 }, Targets::PhiBeta { phi: p, beta: b }) => p2@ == p@.remove(i) && b2@
            == b@.remove(i),
        _ => false,
    }
}

/// Remove initial state `i` and its target; the last initial state stays, and an index past the end changes
/// nothing.  Targets that matched the initial states still match them.
pub fn remove_initial_state<B>(initial_states: &mut Vec<Vec<String>>, targets: &mut Targets<B>, i: usize)
    requires
        old(initial_states)@.len() > 1 && i < old(initial_states)@.len() ==> (i < old(targets).spec_len() && (*old(
            targets,
        ) matches Targets::PhiBeta { beta, .. } ==> i < beta@.len())),
    ensures
        old(initial_states)@.len() <= 1 || i >= old(initial_states)@.len() ==> (*final(initial_states)
            == *old(initial_states) && *final(targets) == *old(targets)),
        old(initial_states)@.len() > 1 && i < old(initial_states)@.len() ==> (final(initial_states)@
            == old(initial_states)@.remove(i as int) && is_removal(*final(targets), *old(targets), i as int)),
        matched(old(initial_states)@, *old(targets)) ==> matched(final(initial_states)@, *final(targets)),
{
    if initial_states.len() <= 1 || i >= initial_states.len() {
        return;
    }
    initial_states.remove(i);
    match targets {
        Targets::Axis(a) => {
            a.remove(i);
        },
        Targets::Gate(g) => {
            g.remove(i);
        },
        Targets::PhiBeta { phi, beta } => {
            phi.remove(i);
            beta.remove(i);
        },
    }
}

/// `s` with every underscore shown as a space.
pub open spec fn spec_spaced(s: Seq<char>) -> Seq<char> {
    s.map_values(|c: char| if c == '_' { ' ' } else { c })
}

/// `s` with every underscore shown as a space, as menus show file stems and model names.
pub fn spaced(s: &str) -> (r: String)
    ensures
        r@ == spec_spaced(s@),
{
    let n = s.unicode_len();
    let mut r = String::new();
    let mut i: usize = 0;
    while i < n
        invariant
            n == s@.len(),
            i <= n,
            r@ == spec_spaced(s@.take(i as int)),
        decreases n - i,
    {
        let c = s.get_char(i);
        if c == '_' {
            r.append(" ");
        } else {
            r.append(s.substring_char(i, i + 1));
        }
        proof {
            reveal_strlit(" ");
            assert(s@.take(i + 1) =~= s@.take(i as int).push(c));
            assert(spec_spaced(s@.take(i + 1)) =~= spec_spaced(s@.take(i as int)).push(
                if c == '_' { ' ' } else { c },
            ));
        }
        i = i + 1;
    }
    assert(s@.take(n as int) =~= s@);
    r
}

/// The menu label of a model's default configuration for `n` qubits: the model's name spaced out, then
/// `default, 1 qubit` or `default, <n> qubits`.
pub open spec fn spec_preset_label(model: Seq<char>, n: nat) -> Seq<char> {
    spec_spaced(model) + " default, "@ + decimal(n) + if n == 1 { " qubit"@ } else { " qubits"@ }
}

/// The menu label of a model's default configuration for `n` qubits.
pub fn preset_label(model: &str, n: usize) -> (r: String)
    ensures
        r@ == spec_preset_label(model@, n as nat),
{
    let mut r = spaced(model);
    r.append(" default, ");
    r.append(decimal_string(n).as_str());
    if n == 1 {
        r.append(" qubit");
    } else {
        r.append(" qubits");
    }
    r
}

} // verus!
