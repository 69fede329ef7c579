//! Hamiltonian models: the physical platforms by name, how a control amplitude is drawn from a waveform, and the
//! spin-spin coupling forms.

use vstd::prelude::*;

pub mod defaults;

use crate::config::HAMILTONIAN_TYPES;
use crate::error::{Error, Result};
use crate::edit::opt_view;
use crate::text::{join_strs, str_eq, strs, to_uppercase, upper_form};

verus! {

/// Which part of a qubit's waveform drives a control channel.
#[derive(Clone, Copy, Debug, PartialEq, Eq, Structural)]
pub enum Source {
    /// The in-phase (x) quadrature.
    Cx,
    /// The quadrature (y) component.
    Cy,
    /// The instantaneous power `cx² + cy²`.
    Power,
}

/// Every model name, in the order the interface lists them.
pub open spec fn spec_model_names() -> Seq<Seq<char>> {
    seq!["spin_chain"@, "superconducting"@, "duffing_transmon"@]
}

/// Every model name, in the order the interface lists them: the configuration's `HAMILTONIAN_TYPES`.
pub fn model_names() -> (names: &'static [&'static str])
    ensures
        strs(names@) == spec_model_names(),
{
    let names: &'static [&'static str] = &HAMILTONIAN_TYPES;
    assert(strs(names@) =~= spec_model_names());
    names
}

/// Spin-spin coupling form.
#[derive(Clone, Copy, Debug, PartialEq, Eq, Structural)]
pub enum Coupling {
    /// `J·Z_i·Z_j`, weak coupling.
    Z,
    /// `J·(X_i·X_j + Y_i·Y_j)`.
    Xy,
    /// `J·(X_i·X_j + Y_i·Y_j + Z_i·Z_j)`, strong (isotropic) coupling.
    Xyz,
}

/// The error text for a coupling type that is not a spin-chain form.
pub open spec fn coupling_message(s: Seq<char>) -> Seq<char> {
    "coupling_type \""@ + s + "\" is not one of Z, XY, XYZ"@
}

impl Coupling {
    /// The form an uppercase name denotes.
    pub open spec fn spec_from_upper(u: Seq<char>) -> Option<Coupling> {
        if u == "Z"@ {
            Some(Coupling::Z)
        } else if u == "XY"@ {
            Some(Coupling::Xy)
        } else if u == "XYZ"@ {
            Some(Coupling::Xyz)
        } else {
            None
        }
    }

    /// Parse `Z`, `XY` or `XYZ`, ignoring case.
    pub fn parse(s: &str) -> (res: Result<Coupling>)
        ensures
            Self::spec_from_upper(upper_form(s@)) matches Some(c) ==> res == Ok::<Coupling, Error>(c),
            Self::spec_from_upper(upper_form(s@)) is None ==> (res matches Err(Error::Config(m)) && m@
                == coupling_message(s@)),
    {
        let u = to_uppercase(s);
        if str_eq(u.as_str(), "Z") {
            Ok(Coupling::Z)
        } else if str_eq(u.as_str(), "XY") {
            Ok(Coupling::Xy)
        } else if str_eq(u.as_str(), "XYZ") {
            Ok(Coupling::Xyz)
        } else {
            let mut m = String::from_str("coupling_type \"");
            m.append(s);
            m.append("\" is not one of Z, XY, XYZ");
            Err(Error::Config(m))
        }
    }
}

/// Parsing ignores case: two names with the same upper-case form denote the same coupling form, or both
/// denote none.
pub proof fn law_parse_ignores_case(a: Seq<char>, b: Seq<char>)
    requires
        upper_form(a) == upper_form(b),
    ensures
        Coupling::spec_from_upper(upper_form(a)) == Coupling::spec_from_upper(upper_form(b)),
{
}

/// Which model a configuration describes, with the settings the choice itself fixes.
#[derive(Clone, Debug)]
pub enum ModelKind {
    /// A spin chain with this coupling form.
    SpinChain(Coupling),
    /// Two-level transmons with this coupling type (`XY`, `ZZ` or `XY+ZZ`).
    Superconducting(String),
    /// Three-level transmons.
    DuffingTransmon,
}

/// `s`, or `default` when it is absent.
pub open spec fn or_default(s: Option<&str>, default: Seq<char>) -> Seq<char> {
    match s {
        Some(t) => t@,
        None => default,
    }
}

/// The error text for a three-level transmon model without anharmonicities.
pub open spec fn anharmonicities_message() -> Seq<char> {
    "the duffing_transmon model needs anharmonicities"@
}

/// The spin-chain outcome for a coupling type: the form its upper-case name denotes, or the coupling error.
pub open spec fn spin_chain_outcome(res: Result<ModelKind>, coupling: Seq<char>) -> bool {
    &&& (Coupling::spec_from_upper(upper_form(coupling)) matches Some(c) ==> (res matches Ok(ModelKind::SpinChain(k))
        && k == c))
    &&& (Coupling::spec_from_upper(upper_form(coupling)) is None ==> (res matches Err(Error::Config(m)) && m@
        == coupling_message(coupling)))
}

/// The model a configuration describes.  No model name means the legacy spin-chain path,
/// whose default coupling is `Z` rather than the `spin_chain` model's `XY`; the superconducting model takes
/// `XY` by default too; the three-level model needs anharmonicities; any other name is an error.
#[verifier::spinoff_prover]
pub fn model_kind(
    hamiltonian_type: Option<&str>,
    coupling_type: Option<&str>,
    has_anharmonicities: bool,
) -> (res: Result<ModelKind>)
    ensures
        hamiltonian_type is None ==> spin_chain_outcome(res, or_default(coupling_type, "Z"@)),
        opt_view(hamiltonian_type) == Some("spin_chain"@) ==> spin_chain_outcome(
            res,
            or_default(coupling_type, "XY"@),
        ),
        opt_view(hamiltonian_type) == Some("superconducting"@) ==> (res matches Ok(ModelKind::Superconducting(c))
            && c@ == or_default(coupling_type, "XY"@)),
        opt_view(hamiltonian_type) == Some("duffing_transmon"@) && has_anharmonicities ==> res matches Ok(
            ModelKind::DuffingTransmon,
        ),
        opt_view(hamiltonian_type) == Some("duffing_transmon"@) && !has_anharmonicities ==> (res matches Err(
            Error::Config(e),
        ) && e@ == anharmonicities_message()),
        hamiltonian_type matches Some(m) ==> (!spec_model_names().contains(m@) ==> (res matches Err(
            Error::Config(e),
        ) && e@ == defaults::unknown_model_message(m@))),
{
    proof {
        reveal_strlit("spin_chain");
        reveal_strlit("superconducting");
        reveal_strlit("duffing_transmon");
        assert("superconducting"@.len() != "spin_chain"@.len());
        assert("duffing_transmon"@.len() != "spin_chain"@.len());
        assert("duffing_transmon"@[0] != "superconducting"@[0]);
    }
    match hamiltonian_type {
        None => {
            let c = match coupling_type {
                Some(t) => t,
                None => "Z",
            };
            match Coupling::parse(c) {
                Ok(k) => Ok(ModelKind::SpinChain(k)),
                Err(e) => Err(e),
            }
        },
        Some(m) => {
            if str_eq(m, "spin_chain") {
                assert(spec_model_names()[0] == m@);
                let c = match coupling_type {
                    Some(t) => t,
                    None => "XY",
                };
                match Coupling::parse(c) {
                    Ok(k) => Ok(ModelKind::SpinChain(k)),
                    Err(e) => Err(e),
                }
            } else if str_eq(m, "superconducting") {
                assert(spec_model_names()[1] == m@);
                let c = match coupling_type {
                    Some(t) => t,
                    None => "XY",
                };
                Ok(ModelKind::Superconducting(String::from_str(c)))
            } else if str_eq(m, "duffing_transmon") {
                assert(spec_model_names()[2] == m@);
                if has_anharmonicities {
                    Ok(ModelKind::DuffingTransmon)
                } else {
                    Err(Error::Config(String::from_str("the duffing_transmon model needs anharmonicities")))
                }
            } else {
                proof {
                    assert(!spec_model_names().contains(m@)) by {
                        if spec_model_names().contains(m@) {
                            let i = choose|i: int| 0 <= i < 3 && spec_model_names()[i] == m@;
                            assert(i == 0 || i == 1 || i == 2);
                        }
                    }
                }
                let mut e = String::from_str("unknown hamiltonian_type \"");
                e.append(m);
                e.append("\"; choose one of ");
                e.append(join_strs(model_names(), ", ").as_str());
                Err(Error::Config(e))
            }
        },
    }
}

} // verus!
