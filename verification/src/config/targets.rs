//! What each initial state should become, and how the target map of a configuration file is read.

use vstd::prelude::*;

use crate::config::{complete, spec_complete};

verus! {

/// What each initial state should become.  `B` is the type of a rotation angle in degrees.
#[derive(Clone, Debug)]
pub enum Targets<B> {
    /// A product state, one axis per qubit, per initial state.
    Axis(Vec<Vec<String>>),
    /// A gate name per initial state.
    Gate(Vec<String>),
    /// A rotation about an axis per qubit (`x`, `-x`, `y`, `-y`, `z`, `-z`) by an angle, per initial state.
    PhiBeta {
        /// Rotation axes.
        phi: Vec<Vec<String>>,
        /// Rotation angles in degrees.
        beta: Vec<Vec<B>>,
    },
}

impl<B> Targets<B> {
    /// The JSON key naming the method.
    pub open spec fn spec_method(self) -> Seq<char> {
        match self {
            Targets::Axis(_) => "Axis"@,
            Targets::Gate(_) => "Gate"@,
            Targets::PhiBeta { .. } => "Phi"@,
        }
    }

    /// Number of target entries.
    pub open spec fn spec_len(self) -> nat {
        match self {
            Targets::Axis(v) => v@.len(),
            Targets::Gate(v) => v@.len(),
            Targets::PhiBeta { phi, .. } => phi@.len(),
        }
    }

    /// A rotation target has as many angle lists as axis lists.
    pub open spec fn spec_paired(self) -> bool {
        match self {
            Targets::PhiBeta { phi, beta } => phi@.len() == beta@.len(),
            _ => true,
        }
    }

    /// The JSON key naming the method: `Axis`, `Gate` or `Phi`.
    pub fn method(&self) -> (s: &'static str)
        ensures
            s@ == self.spec_method(),
    {
        match self {
            Targets::Axis(_) => "Axis",
            Targets::Gate(_) => "Gate",
            Targets::PhiBeta { .. } => "Phi",
        }
    }

    /// Number of target entries.
    pub fn len(&self) -> (n: usize)
        ensures
            n == self.spec_len(),
    {
        match self {
            Targets::Axis(v) => v.len(),
            Targets::Gate(v) => v.len(),
            Targets::PhiBeta { phi, .. } => phi.len(),
        }
    }

    /// Whether there are no target entries.
    pub fn is_empty(&self) -> (b: bool)
        ensures
            b == (self.spec_len() == 0),
    {
        self.len() == 0
    }
}

/// The error text for a target map with no complete list.
pub open spec fn incomplete_targets_message() -> Seq<char> {
    "target_states needs a complete \"Axis\", \"Gate\", or \"Phi\" and \"Beta\" list"@
}

/// The method a target map describes: the first of `Axis`, `Gate`, and `Phi` with `Beta` whose lists are present,
/// non-empty and without nulls.  A file may carry every key, with nulls for the unused ones.
pub fn from_raw<B>(
    axis: Option<Vec<Option<Vec<String>>>>,
    gate: Option<Vec<Option<String>>>,
    phi: Option<Vec<Option<Vec<String>>>>,
    beta: Option<Vec<Option<Vec<B>>>>,
) -> (res: core::result::Result<Targets<B>, String>)
    ensures
        spec_complete(axis) matches Some(a) ==> (res matches Ok(Targets::Axis(v)) && v@ == a),
        spec_complete(axis) is None ==> (spec_complete(gate) matches Some(g) ==> (res matches Ok(
            Targets::Gate(v),
        ) && v@ == g)),
        spec_complete(axis) is None && spec_complete(gate) is None ==> (spec_complete(phi) matches Some(p)
            ==> (spec_complete(beta) matches Some(b) ==> (res matches Ok(Targets::PhiBeta { phi: pv, beta: bv })
            && pv@ == p && bv@ == b))),
        spec_complete(axis) is None && spec_complete(gate) is None && (spec_complete(phi) is None
            || spec_complete(beta) is None) ==> (res matches Err(m) && m@ == incomplete_targets_message()),
{
    if let Some(a) = complete(axis) {
        return Ok(Targets::Axis(a));
    }
    if let Some(g) = complete(gate) {
        return Ok(Targets::Gate(g));
    }
    let p = complete(phi);
    let b = complete(beta);
    match (p, b) {
        (Some(phi), Some(beta)) => Ok(Targets::PhiBeta { phi, beta }),
        _ => Err(
            String::from_str("target_states needs a complete \"Axis\", \"Gate\", or \"Phi\" and \"Beta\" list"),
        ),
    }
}

} // verus!
