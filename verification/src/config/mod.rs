//! The optimisation problem as its configuration files write it: the enumerations its JSON schema uses, the name
//! tables, and the checks that say whether a configuration can run.

pub mod growth;
pub mod parameters;
pub mod targets;
pub mod validate;

pub use targets::{Targets, from_raw, incomplete_targets_message};
pub use validate::{Checks, ConfigFacts, TargetFacts, check, spec_validate, validate};

use vstd::prelude::*;

verus! {

/// State space.
#[derive(Clone, Copy, Debug, PartialEq, Eq, Structural)]
pub enum Space {
    /// State vectors.
    Hilbert,
    /// Density matrices.
    Liouville,
}

/// Whether relaxation is modelled.
#[derive(Clone, Copy, Debug, PartialEq, Eq, Structural)]
pub enum Dissipation {
    /// Unitary evolution only.
    NonDissipative,
    /// Lindblad evolution with T1/T2; forces Liouville space.
    Dissipative,
}

/// How a qubit's waveform is parametrised.
#[derive(Clone, Copy, Debug, PartialEq, Eq, Structural)]
pub enum WaveformMode {
    /// Two basis expansions for the x and y quadratures.
    Cart,
    /// Two basis expansions for amplitude and phase.
    Polar,
    /// A fixed envelope scaled by one amplitude parameter, and a basis expansion for the phase.
    PolarPhase,
}

impl WaveformMode {
    /// Every mode, in the order the interface lists them.
    pub const ALL: [WaveformMode; 3] = [WaveformMode::Cart, WaveformMode::Polar, WaveformMode::PolarPhase];

    /// The JSON name.
    pub open spec fn spec_name(self) -> Seq<char> {
        match self {
            WaveformMode::Cart => "cart"@,
            WaveformMode::Polar => "polar"@,
            WaveformMode::PolarPhase => "polar_phase"@,
        }
    }

    /// The JSON name.
    pub fn name(self) -> (s: &'static str)
        ensures
            s@ == self.spec_name(),
    {
        match self {
            WaveformMode::Cart => "cart",
            WaveformMode::Polar => "polar",
            WaveformMode::PolarPhase => "polar_phase",
        }
    }
}

/// How the offsets of a qubit are sampled.
#[derive(Clone, Copy, Debug, PartialEq, Eq, Structural)]
pub enum Coverage {
    /// Normally distributed about the offset.
    Single,
    /// Uniform across the sweep width.
    Broadband,
    /// Inside the band normally distributed, outside uniform; the target applies only inside the band.
    Selective,
    /// Inside and outside the band uniform; the target follows a super-Gaussian profile.
    BandSelective,
}

impl Coverage {
    /// Every coverage, in the order the interface lists them.
    pub const ALL: [Coverage; 4] = [
        Coverage::Single,
        Coverage::Broadband,
        Coverage::Selective,
        Coverage::BandSelective,
    ];

    /// The JSON name.
    pub open spec fn spec_name(self) -> Seq<char> {
        match self {
            Coverage::Single => "single"@,
            Coverage::Broadband => "broadband"@,
            Coverage::Selective => "selective"@,
            Coverage::BandSelective => "band_selective"@,
        }
    }

    /// The JSON name.
    pub fn name(self) -> (s: &'static str)
        ensures
            s@ == self.spec_name(),
    {
        match self {
            Coverage::Single => "single",
            Coverage::Broadband => "broadband",
            Coverage::Selective => "selective",
            Coverage::BandSelective => "band_selective",
        }
    }
}

/// Whether T1/T2 relaxation is on for the configured dissipation mode.  Absent means non-dissipative.
pub fn is_dissipative(mode: Option<Dissipation>) -> (b: bool)
    ensures
        b == (mode == Some(Dissipation::Dissipative)),
{
    match mode {
        Some(Dissipation::Dissipative) => true,
        _ => false,
    }
}

/// The effective state space: dissipative runs are always in Liouville space, others in the configured one.
pub fn effective_space(mode: Option<Dissipation>, space: Space) -> (s: Space)
    ensures
        mode == Some(Dissipation::Dissipative) ==> s == Space::Liouville,
        mode != Some(Dissipation::Dissipative) ==> s == space,
{
    if is_dissipative(mode) {
        Space::Liouville
    } else {
        space
    }
}

/// Axis names for states.
pub const STATE_AXES: [&'static str; 6] = ["Z", "-Z", "X", "-X", "Y", "-Y"];

/// Axis names for rotations.
pub const ROTATION_AXES: [&'static str; 6] = ["x", "-x", "y", "-y", "z", "-z"];

/// Hamiltonian model names.
pub const HAMILTONIAN_TYPES: [&'static str; 3] = ["spin_chain", "superconducting", "duffing_transmon"];

/// The entries of a list if it is present, non-empty and has no missing entry.
pub open spec fn spec_complete<T>(v: Option<Vec<Option<T>>>) -> Option<Seq<T>> {
    match v {
        None => None,
        Some(v) => if v@.len() > 0 && forall|i: int| 0 <= i < v@.len() ==> v@[i] is Some {
            Some(v@.map_values(|o: Option<T>| o->0))
        } else {
            None
        },
    }
}

/// The entries of a list if it is present, non-empty and has no missing entry.
pub fn complete<T>(v: Option<Vec<Option<T>>>) -> (r: Option<Vec<T>>)
    ensures
        r matches Some(out) ==> spec_complete(v) == Some(out@),
        r is None ==> spec_complete(v) is None,
{
    let vec = match v {
        None => return None,
        Some(vec) => vec,
    };
    if vec.len() == 0 {
        return None;
    }
    let ghost orig = vec@;
    assert(v == Some(vec));
    let mut rest = vec;
    let mut out: Vec<T> = Vec::new();
    while rest.len() > 0
        invariant
            v matches Some(w) && w@ == orig,
            orig.len() == out@.len() + rest@.len(),
            forall|i: int| 0 <= i < out@.len() ==> orig[i] == Some(out@[i]),
            forall|i: int| 0 <= i < rest@.len() ==> orig[out@.len() + i] == rest@[i],
        decreases rest@.len(),
    {
        let ghost k = out@.len() as int;
        match rest.remove(0) {
            Some(x) => {
                out.push(x);
            },
            None => {
                assert(orig[k] is None);
                assert(!(forall|i: int| 0 <= i < orig.len() ==> orig[i] is Some));
                return None;
            },
        }
    }
    assert(orig.map_values(|o: Option<T>| o->0) =~= out@);
    Some(out)
}

} // verus!
