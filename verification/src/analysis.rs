//! What the plots show of a state: which of its components are drawn, their labels, and their values over a
//! trajectory.

use vstd::prelude::*;

use crate::config::Space;
use crate::linalg::Mat;
use crate::text::{decimal, decimal_string, lemma_strings_push, strings};

verus! {

/// Largest dimension whose full density matrix is plotted; larger ones plot the populations only.
pub const MAX_FULL_DENSITY: usize = 4;

/// The plotted components of a state of dimension `d` in `space`, as `(row, column)` pairs, and their labels:
/// `ψi` for state vectors, `ρij` for density matrices - every entry up to [`MAX_FULL_DENSITY`], the diagonal
/// beyond.
pub open spec fn spec_components(d: nat, space: Space) -> (Seq<(usize, usize)>, Seq<Seq<char>>) {
    match space {
        Space::Hilbert => (
            Seq::new(d, |i: int| (i as usize, 0usize)),
            Seq::new(d, |i: int| "ψ"@ + decimal((i + 1) as nat)),
        ),
        Space::Liouville => if d <= MAX_FULL_DENSITY {
            (
                Seq::new(d * d, |k: int| ((k / d as int) as usize, (k % d as int) as usize)),
                Seq::new(
                    d * d,
                    |k: int| "ρ"@ + decimal((k / d as int + 1) as nat) + decimal((k % d as int + 1) as nat),
                ),
            )
        } else {
            (
                Seq::new(d, |i: int| (i as usize, i as usize)),
                Seq::new(d, |i: int| "ρ"@ + decimal((i + 1) as nat) + decimal((i + 1) as nat)),
            )
        },
    }
}

/// Which components of a state of dimension `d` in `space` are plotted, and their labels.
pub fn components(d: usize, space: Space) -> (res: (Vec<(usize, usize)>, Vec<String>))
    requires
        d < usize::MAX,
    ensures
        res.0@ == spec_components(d as nat, space).0,
        strings(res.1@) == spec_components(d as nat, space).1,
{
    let mut idx: Vec<(usize, usize)> = Vec::new();
    let mut labels: Vec<String> = Vec::new();
    let ghost want = spec_components(d as nat, space);
    match space {
        Space::Hilbert => {
            let mut i: usize = 0;
            while i < d
                invariant
                    d < usize::MAX,
                    i <= d,
                    want == spec_components(d as nat, space),
                    space == Space::Hilbert,
                    idx@ == want.0.take(i as int),
                    strings(labels@) == want.1.take(i as int),
                decreases d - i,
            {
                idx.push((i, 0));
                let mut l = String::from_str("ψ");
                l.append(decimal_string(i + 1).as_str());
                let ghost old_labels = labels@;
                labels.push(l);
                proof {
                    lemma_strings_push(old_labels, l);
                }
                assert(idx@ =~= want.0.take(i + 1));
                assert(strings(labels@) =~= want.1.take(i + 1));
                i = i + 1;
            }
        },
        Space::Liouville => {
            if d <= MAX_FULL_DENSITY {
                let mut r: usize = 0;
                while r < d
                    invariant
                        d <= MAX_FULL_DENSITY,
                        r <= d,
                        want == spec_components(d as nat, space),
                        space == Space::Liouville,
                        idx@ == want.0.take(r * d),
                        strings(labels@) == want.1.take(r * d),
                    decreases d - r,
                {
                    let mut c: usize = 0;
                    while c < d
                        invariant
                            d <= MAX_FULL_DENSITY,
                            r < d,
                            c <= d,
                            want == spec_components(d as nat, space),
                            space == Space::Liouville,
                            idx@ == want.0.take(r * d + c),
                            strings(labels@) == want.1.take(r * d + c),
                        decreases d - c,
                    {
                        proof {
                            let k = r * d + c;
                            assert(k / (d as int) == r && k % (d as int) == c) by (nonlinear_arith)
                                requires
                                    k == r * d + c,
                                    c < d,
                                    0 <= r,
                            ;
                            assert(k < d * d) by (nonlinear_arith)
                                requires
                                    k == r * d + c,
                                    c < d,
                                    r < d,
                            ;
                        }
                        idx.push((r, c));
                        let mut l = String::from_str("ρ");
                        l.append(decimal_string(r + 1).as_str());
                        l.append(decimal_string(c + 1).as_str());
                        let ghost old_labels = labels@;
                        labels.push(l);
                        proof {
                            lemma_strings_push(old_labels, l);
                        }
                        assert(idx@ =~= want.0.take(r * d + c + 1));
                        assert(strings(labels@) =~= want.1.take(r * d + c + 1));
                        c = c + 1;
                    }
                    proof {
                        assert((r + 1) * d == r * d + d) by (nonlinear_arith);
                    }
                    r = r + 1;
                }
                assert(idx@ =~= want.0);
                assert(strings(labels@) =~= want.1);
            } else {
                let mut i: usize = 0;
                while i < d
                    invariant
                        d < usize::MAX,
                        d > MAX_FULL_DENSITY,
                        i <= d,
                        want == spec_components(d as nat, space),
                        space == Space::Liouville,
                        idx@ == want.0.take(i as int),
                        strings(labels@) == want.1.take(i as int),
                    decreases d - i,
                {
                    idx.push((i, i));
                    let mut l = String::from_str("ρ");
                    l.append(decimal_string(i + 1).as_str());
                    l.append(decimal_string(i + 1).as_str());
                    let ghost old_labels = labels@;
                    labels.push(l);
                    proof {
                        lemma_strings_push(old_labels, l);
                    }
                    assert(idx@ =~= want.0.take(i + 1));
                    assert(strings(labels@) =~= want.1.take(i + 1));
                    i = i + 1;
                }
            }
        },
    }
    assert(idx@ =~= want.0);
    assert(strings(labels@) =~= want.1);
    (idx, labels)
}

/// Every position of `idx` lies inside every state of `traj`.
pub open spec fn positions_inside<E>(traj: Seq<Mat<E>>, idx: Seq<(usize, usize)>) -> bool {
    forall|t: int, i: int|
        #![trigger traj[t], idx[i]]
        0 <= t < traj.len() && 0 <= i < idx.len() ==> traj[t].wf() && idx[i].0 < traj[t].rows && idx[i].1
            < traj[t].cols
}

/// The values over a trajectory of the components at `idx`: for each position, its entry in every state, in
/// order.
pub fn pick<E: Copy>(traj: &[Mat<E>], idx: &[(usize, usize)]) -> (series: Vec<Vec<E>>)
    requires
        positions_inside(traj@, idx@),
    ensures
        series@.len() == idx@.len(),
        forall|i: int| 0 <= i < idx@.len() ==> #[trigger] series@[i]@.len() == traj@.len(),
        forall|i: int, t: int|
            0 <= i < idx@.len() && 0 <= t < traj@.len() ==> #[trigger] series@[i]@[t] == traj@[t].entry(
                idx@[i].0 as int,
                idx@[i].1 as int,
            ),
{
    let mut series: Vec<Vec<E>> = Vec::new();
    let mut i: usize = 0;
    while i < idx.len()
        invariant
            positions_inside(traj@, idx@),
            i <= idx@.len(),
            series@.len() == i,
            forall|j: int| 0 <= j < i ==> #[trigger] series@[j]@.len() == traj@.len(),
            forall|j: int, t: int|
                0 <= j < i && 0 <= t < traj@.len() ==> #[trigger] series@[j]@[t] == traj@[t].entry(
                    idx@[j].0 as int,
                    idx@[j].1 as int,
                ),
        decreases idx@.len() - i,
    {
        let (r, c) = idx[i];
        let mut values: Vec<E> = Vec::new();
        let mut t: usize = 0;
        while t < traj.len()
            invariant
                positions_inside(traj@, idx@),
                i < idx@.len(),
                (r, c) == idx@[i as int],
                t <= traj@.len(),
                values@.len() == t,
                forall|k: int| 0 <= k < t ==> #[trigger] values@[k] == traj@[k].entry(r as int, c as int),
            decreases traj@.len() - t,
        {
            let s = &traj[t];
            assert(traj@[t as int].wf() && idx@[i as int].0 < traj@[t as int].rows && idx@[i as int].1
                < traj@[t as int].cols);
            proof {
                crate::linalg::mat::lemma_index_in_bounds(r as int, c as int, s.rows as int, s.cols as int);
            }
            values.push(s.get(r, c));
            t = t + 1;
        }
        series.push(values);
        i = i + 1;
    }
    series
}


/// In Liouville space a density matrix of dimension up to four is plotted whole: all `d·d` entries, row by row,
/// entry `k` being row `k / d` and column `k % d`, labelled `ρ` with their one-based row and column.
pub proof fn law_small_density_matrices_are_plotted_whole(d: nat)
    requires
        d <= 4,
    ensures
        spec_components(d, Space::Liouville).0.len() == d * d,
        spec_components(d, Space::Liouville).1.len() == d * d,
        forall|k: int|
            0 <= k < d * d ==> #[trigger] spec_components(d, Space::Liouville).0[k] == (
                (k / d as int) as usize,
                (k % d as int) as usize,
            ),
        forall|k: int|
            0 <= k < d * d ==> #[trigger] spec_components(d, Space::Liouville).1[k] == "ρ"@ + decimal(
                (k / d as int + 1) as nat,
            ) + decimal((k % d as int + 1) as nat),
{
}

/// In Liouville space a density matrix of dimension above four is plotted by its populations alone: the `d`
/// diagonal entries, in order.
pub proof fn law_large_density_matrices_show_populations(d: nat)
    requires
        d > 4,
    ensures
        spec_components(d, Space::Liouville).0.len() == d,
        forall|i: int| 0 <= i < d ==> #[trigger] spec_components(d, Space::Liouville).0[i] == (i as usize, i as usize),
        spec_components(d, Space::Liouville).1.len() == d,
        forall|i: int|
            0 <= i < d ==> #[trigger] spec_components(d, Space::Liouville).1[i] == "ρ"@ + decimal((i + 1) as nat)
                + decimal((i + 1) as nat),
{
}

/// A state vector of dimension `d` is plotted by its `d` amplitudes, in order, labelled `ψ` with their one-based
/// index.
pub proof fn law_state_vectors_show_every_amplitude(d: nat)
    ensures
        spec_components(d, Space::Hilbert).0.len() == d,
        spec_components(d, Space::Hilbert).1.len() == d,
        forall|i: int| 0 <= i < d ==> #[trigger] spec_components(d, Space::Hilbert).0[i] == (i as usize, 0usize),
        forall|i: int| 0 <= i < d ==> #[trigger] spec_components(d, Space::Hilbert).1[i] == "ψ"@ + decimal((i + 1) as nat),
{
}

} // verus!
