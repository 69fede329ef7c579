//! Basis functions for the pulse waveforms: which bases exist, how many functions and optimiser parameters a
//! qubit's coefficient count gives in each waveform mode, and which of the first random draws become the initial
//! parameters.
//!
//! Every basis follows the same counting rules except the Fourier basis, whose functions come in cosine-sine
//! pairs after a constant.

use vstd::prelude::*;

use crate::config::WaveformMode;
use crate::error::{Error, Result};
use crate::text::{decimal, decimal_string, join, join_strs, str_eq, strs};

verus! {

/// A family of basis functions, by its JSON name.
#[derive(Clone, Copy, Debug, PartialEq, Eq, Structural)]
pub enum BasisKind {
    /// Chebyshev polynomials of the first kind, `cheb`.
    Chebyshev,
    /// Legendre polynomials, `leg`.
    Legendre,
    /// The Fourier series `1, cos 2πkx, sin 2πkx`, `fou`.
    Fourier,
    /// Monomials, `poly`.
    Monomial,
    /// Probabilists' Hermite polynomials, `hermite`.
    Hermite,
    /// Gegenbauer polynomials with λ = ½, `gegen`.
    Gegenbauer,
    /// Chirps `cos(2π·i·(x/2)²)`, `chirp`.
    Chirp,
    /// Uniform random columns, `random`.
    Random,
}

/// Every basis name, in the order the interface lists them.
pub open spec fn spec_basis_names() -> Seq<Seq<char>> {
    seq!["cheb"@, "leg"@, "fou"@, "poly"@, "hermite"@, "gegen"@, "chirp"@, "random"@]
}

/// Every basis, in the order of [`spec_basis_names`].
pub open spec fn spec_basis_kinds() -> Seq<BasisKind> {
    seq![
        BasisKind::Chebyshev,
        BasisKind::Legendre,
        BasisKind::Fourier,
        BasisKind::Monomial,
        BasisKind::Hermite,
        BasisKind::Gegenbauer,
        BasisKind::Chirp,
        BasisKind::Random,
    ]
}

/// Every basis name, in the order the interface lists them.
pub fn basis_names() -> (names: &'static [&'static str])
    ensures
        strs(names@) == spec_basis_names(),
{
    let names: &'static [&'static str] = &["cheb", "leg", "fou", "poly", "hermite", "gegen", "chirp", "random"];
    assert(strs(names@) =~= spec_basis_names());
    names
}

/// Every envelope name, in the order the interface lists them.
pub open spec fn spec_envelope_names() -> Seq<Seq<char>> {
    seq!["gn"@, "hs"@, "quad"@]
}

/// Every amplitude envelope name, in the order the interface lists them.
pub fn envelope_names() -> (names: &'static [&'static str])
    ensures
        strs(names@) == spec_envelope_names(),
{
    let names: &'static [&'static str] = &["gn", "hs", "quad"];
    assert(strs(names@) =~= spec_envelope_names());
    names
}

/// The error text for an unknown basis name.
pub open spec fn unknown_basis_message(name: Seq<char>) -> Seq<char> {
    "unknown basis \""@ + name + "\"; choose one of "@ + join(spec_basis_names(), ", "@)
}

/// The basis a JSON name denotes.
pub open spec fn spec_basis_of(name: Seq<char>) -> Option<BasisKind> {
    if name == "cheb"@ {
        Some(BasisKind::Chebyshev)
    } else if name == "leg"@ {
        Some(BasisKind::Legendre)
    } else if name == "fou"@ {
        Some(BasisKind::Fourier)
    } else if name == "poly"@ {
        Some(BasisKind::Monomial)
    } else if name == "hermite"@ {
        Some(BasisKind::Hermite)
    } else if name == "gegen"@ {
        Some(BasisKind::Gegenbauer)
    } else if name == "chirp"@ {
        Some(BasisKind::Chirp)
    } else if name == "random"@ {
        Some(BasisKind::Random)
    } else {
        None
    }
}

/// The basis with JSON name `name`.
pub fn basis(name: &str) -> (res: Result<BasisKind>)
    ensures
        spec_basis_of(name@) matches Some(k) ==> res == Ok::<BasisKind, Error>(k),
        spec_basis_of(name@) is None ==> (res matches Err(Error::Config(s)) && s@ == unknown_basis_message(
            name@,
        )),
{
    if str_eq(name, "cheb") {
        Ok(BasisKind::Chebyshev)
    } else if str_eq(name, "leg") {
        Ok(BasisKind::Legendre)
    } else if str_eq(name, "fou") {
        Ok(BasisKind::Fourier)
    } else if str_eq(name, "poly") {
        Ok(BasisKind::Monomial)
    } else if str_eq(name, "hermite") {
        Ok(BasisKind::Hermite)
    } else if str_eq(name, "gegen") {
        Ok(BasisKind::Gegenbauer)
    } else if str_eq(name, "chirp") {
        Ok(BasisKind::Chirp)
    } else if str_eq(name, "random") {
        Ok(BasisKind::Random)
    } else {
        let mut s = String::from_str("unknown basis \"");
        s.append(name);
        s.append("\"; choose one of ");
        s.append(join_strs(basis_names(), ", ").as_str());
        Err(Error::Config(s))
    }
}

/// Each listed name is the name of the basis it denotes, and a name denotes a basis exactly when it is listed.
pub proof fn law_basis_names_round_trip(name: Seq<char>)
    ensures
        spec_basis_names().contains(name) <==> spec_basis_of(name) is Some,
        spec_basis_of(name) matches Some(k) ==> k.spec_name() == name,
        forall|k: BasisKind| #[trigger] spec_basis_of(k.spec_name()) == Some(k),
{
    reveal_strlit("cheb");
    reveal_strlit("leg");
    reveal_strlit("fou");
    reveal_strlit("poly");
    reveal_strlit("hermite");
    reveal_strlit("gegen");
    reveal_strlit("chirp");
    reveal_strlit("random");
    assert forall|k: BasisKind| #[trigger] spec_basis_of(k.spec_name()) == Some(k) by {
        let n = k.spec_name();
        assert(n.len() >= 3);
        match k {
            BasisKind::Chebyshev => {},
            BasisKind::Legendre => { assert(n != "cheb"@); },
            BasisKind::Fourier => { assert(n[0] == 'f' && "leg"@[0] == 'l'); },
            BasisKind::Monomial => { assert(n[0] != 'c' && n[0] != 'l' && n[0] != 'f'); },
            BasisKind::Hermite => { assert(n[0] == 'h'); },
            BasisKind::Gegenbauer => { assert(n[0] == 'g'); },
            BasisKind::Chirp => { assert(n.len() == 5 && n[0] == 'c'); },
            BasisKind::Random => { assert(n[0] == 'r'); },
        }
    }
    if spec_basis_of(name) is Some {
        assert(spec_basis_names().contains(name)) by {
            let names = spec_basis_names();
            if name == "cheb"@ { assert(names[0] == name); }
            else if name == "leg"@ { assert(names[1] == name); }
            else if name == "fou"@ { assert(names[2] == name); }
            else if name == "poly"@ { assert(names[3] == name); }
            else if name == "hermite"@ { assert(names[4] == name); }
            else if name == "gegen"@ { assert(names[5] == name); }
            else if name == "chirp"@ { assert(names[6] == name); }
            else { assert(names[7] == name); }
        }
    }
}

/// The Fourier basis's harmonic count, which its column and parameter counts follow.
pub struct Fourier;

impl Fourier {
    /// The harmonic count `n` that `n_para` gives.
    pub open spec fn spec_harmonics(n_para: nat, mode: WaveformMode) -> nat {
        match mode {
            WaveformMode::PolarPhase => if n_para >= 1 { ((n_para - 1) / 2) as nat } else { 0 },
            _ => if n_para >= 2 { ((n_para - 2) / 4) as nat } else { 0 },
        }
    }

    /// The harmonic count `n` that `n_para` gives.
    pub fn harmonics(n_para: usize, mode: WaveformMode) -> (n: usize)
        ensures
            n == Self::spec_harmonics(n_para as nat, mode),
    {
        match mode {
            WaveformMode::PolarPhase => n_para.saturating_sub(1) / 2,
            WaveformMode::Cart | WaveformMode::Polar => n_para.saturating_sub(2) / 4,
        }
    }
}

/// The smallest usable `n_para` of a Fourier basis in `mode`.
pub open spec fn fourier_least(mode: WaveformMode) -> nat {
    match mode {
        WaveformMode::PolarPhase => 1,
        _ => 2,
    }
}

impl BasisKind {
    /// The JSON name.
    pub open spec fn spec_name(self) -> Seq<char> {
        match self {
            BasisKind::Chebyshev => "cheb"@,
            BasisKind::Legendre => "leg"@,
            BasisKind::Fourier => "fou"@,
            BasisKind::Monomial => "poly"@,
            BasisKind::Hermite => "hermite"@,
            BasisKind::Gegenbauer => "gegen"@,
            BasisKind::Chirp => "chirp"@,
            BasisKind::Random => "random"@,
        }
    }

    /// The JSON name.
    pub fn name(self) -> (s: &'static str)
        ensures
            s@ == self.spec_name(),
    {
        match self {
            BasisKind::Chebyshev => "cheb",
            BasisKind::Legendre => "leg",
            BasisKind::Fourier => "fou",
            BasisKind::Monomial => "poly",
            BasisKind::Hermite => "hermite",
            BasisKind::Gegenbauer => "gegen",
            BasisKind::Chirp => "chirp",
            BasisKind::Random => "random",
        }
    }

    /// Number of basis functions for `n_para` user coefficients in `mode`.
    pub open spec fn spec_columns(self, n_para: nat, mode: WaveformMode) -> nat {
        if self == BasisKind::Fourier {
            2 * Fourier::spec_harmonics(n_para, mode) + 1
        } else {
            match mode {
                WaveformMode::PolarPhase => n_para,
                _ => n_para / 2,
            }
        }
    }

    /// Number of basis functions for `n_para` user coefficients in `mode`.
    pub fn columns(self, n_para: usize, mode: WaveformMode) -> (n: usize)
        ensures
            n == self.spec_columns(n_para as nat, mode),
    {
        match self {
            BasisKind::Fourier => 2 * Fourier::harmonics(n_para, mode) + 1,
            _ => match mode {
                WaveformMode::PolarPhase => n_para,
                WaveformMode::Cart | WaveformMode::Polar => n_para / 2,
            },
        }
    }

    /// Number of optimiser parameters for `n_para` user coefficients in `mode`.
    pub open spec fn spec_parameter_count(self, n_para: nat, mode: WaveformMode) -> nat {
        if self == BasisKind::Fourier {
            let n = Fourier::spec_harmonics(n_para, mode);
            match mode {
                WaveformMode::PolarPhase => 2 * n + 2,
                _ => 4 * n + 2,
            }
        } else {
            match mode {
                WaveformMode::PolarPhase => n_para + 1,
                _ => n_para,
            }
        }
    }

    /// Number of optimiser parameters for `n_para` user coefficients in `mode`.
    pub fn parameter_count(self, n_para: usize, mode: WaveformMode) -> (n: usize)
        requires
            n_para < usize::MAX,
        ensures
            n == self.spec_parameter_count(n_para as nat, mode),
    {
        match self {
            BasisKind::Fourier => {
                let n = Fourier::harmonics(n_para, mode);
                match mode {
                    WaveformMode::PolarPhase => 2 * n + 2,
                    WaveformMode::Cart | WaveformMode::Polar => 4 * n + 2,
                }
            },
            _ => match mode {
                WaveformMode::PolarPhase => n_para + 1,
                WaveformMode::Cart | WaveformMode::Polar => n_para,
            },
        }
    }

    /// Whether `n_para` is usable in `mode`.
    pub open spec fn spec_n_para_ok(self, n_para: nat, mode: WaveformMode) -> bool {
        if self == BasisKind::Fourier {
            n_para >= fourier_least(mode)
        } else {
            match mode {
                WaveformMode::PolarPhase => n_para != 0,
                _ => n_para >= 2 && n_para % 2 == 0,
            }
        }
    }

    /// Why `n_para` is not usable in `mode`.
    pub open spec fn n_para_message(self, n_para: nat, mode: WaveformMode) -> Seq<char> {
        if self == BasisKind::Fourier {
            "n_para must be at least "@ + decimal(fourier_least(mode)) + " for the Fourier basis in "@
                + mode.spec_name() + " mode"@
        } else {
            match mode {
                WaveformMode::PolarPhase => "n_para must be at least 1"@,
                _ => "n_para must be even and at least 2 in "@ + mode.spec_name() + " mode (got "@ + decimal(
                    n_para,
                ) + ")"@,
            }
        }
    }

    /// Whether `n_para` is usable in `mode`; the message says why not.
    pub fn check_n_para(self, n_para: usize, mode: WaveformMode) -> (res: core::result::Result<(), String>)
        ensures
            self.spec_n_para_ok(n_para as nat, mode) ==> res is Ok,
            !self.spec_n_para_ok(n_para as nat, mode) ==> (res matches Err(s) && s@ == self.n_para_message(
                n_para as nat,
                mode,
            )),
    {
        match self {
            BasisKind::Fourier => {
                let least: usize = match mode {
                    WaveformMode::PolarPhase => 1,
                    WaveformMode::Cart | WaveformMode::Polar => 2,
                };
                if n_para < least {
                    let mut s = String::from_str("n_para must be at least ");
                    s.append(decimal_string(least).as_str());
                    s.append(" for the Fourier basis in ");
                    s.append(mode.name());
                    s.append(" mode");
                    return Err(s);
                }
                Ok(())
            },
            _ => match mode {
                WaveformMode::PolarPhase => {
                    if n_para == 0 {
                        return Err(String::from_str("n_para must be at least 1"));
                    }
                    Ok(())
                },
                WaveformMode::Cart | WaveformMode::Polar => {
                    if n_para < 2 || n_para % 2 == 1 {
                        let mut s = String::from_str("n_para must be even and at least 2 in ");
                        s.append(mode.name());
                        s.append(" mode (got ");
                        s.append(decimal_string(n_para).as_str());
                        s.append(")");
                        return Err(s);
                    }
                    Ok(())
                },
            },
        }
    }

    /// How many of `len` raw draws are kept as initial coefficients.
    pub open spec fn spec_kept(self, len: nat, mode: WaveformMode) -> nat {
        if self == BasisKind::Fourier {
            let n = Fourier::spec_harmonics(len, mode);
            match mode {
                WaveformMode::PolarPhase => 2 * n + 1,
                _ => 4 * n + 2,
            }
        } else {
            match mode {
                WaveformMode::PolarPhase => len,
                _ => 2 * (len / 2),
            }
        }
    }

    /// The initial coefficients kept from `raw`, the `n_para` uniform draws, before `polar_phase` appends its
    /// extra entry: a prefix of `raw`.
    pub fn initial_coefficients<T: Copy>(self, raw: &[T], mode: WaveformMode) -> (x: Vec<T>)
        requires
            self == BasisKind::Fourier ==> raw@.len() >= fourier_least(mode),
        ensures
            x@ == raw@.take(self.spec_kept(raw@.len(), mode) as int),
    {
        let n = Fourier::harmonics(raw.len(), mode);
        let keep = match self {
            BasisKind::Fourier => match mode {
                WaveformMode::PolarPhase => 2 * n + 1,
                WaveformMode::Cart | WaveformMode::Polar => 4 * n + 2,
            },
            _ => match mode {
                WaveformMode::PolarPhase => raw.len(),
                WaveformMode::Cart | WaveformMode::Polar => 2 * (raw.len() / 2),
            },
        };
        let mut x: Vec<T> = Vec::new();
        let mut i: usize = 0;
        while i < keep
            invariant
                keep <= raw@.len(),
                keep == self.spec_kept(raw@.len(), mode),
                i <= keep,
                x@ == raw@.take(i as int),
            decreases keep - i,
        {
            x.push(raw[i]);
            assert(raw@.take(i + 1) =~= raw@.take(i as int).push(raw@[i as int]));
            i = i + 1;
        }
        x
    }
}

/// The initial optimiser parameters for one qubit, from its raw coefficients.
pub open spec fn spec_initial_params<T>(kind: BasisKind, raw: Seq<T>, mode: WaveformMode) -> Seq<T> {
    let x = raw.take(kind.spec_kept(raw.len(), mode) as int);
    if mode == WaveformMode::PolarPhase && x.len() > 0 {
        x.push(x.last())
    } else {
        x
    }
}

/// The initial optimiser parameters for one qubit from its raw coefficients: the kept prefix, with its last
/// entry repeated in `polar_phase` mode.
pub fn initial_params<T: Copy>(basis: BasisKind, raw: &[T], mode: WaveformMode) -> (x: Vec<T>)
    requires
        basis == BasisKind::Fourier ==> raw@.len() >= fourier_least(mode),
    ensures
        x@ == spec_initial_params(basis, raw@, mode),
{
    let mut x = basis.initial_coefficients(raw, mode);
    match mode {
        WaveformMode::PolarPhase => {
            if x.len() > 0 {
                let last = x[x.len() - 1];
                x.push(last);
            }
        },
        _ => {},
    }
    x
}

/// The initial parameters of a usable coefficient count are as many as the basis's parameter count.
pub proof fn law_initial_params_count<T>(basis: BasisKind, raw: Seq<T>, mode: WaveformMode)
    requires
        basis.spec_n_para_ok(raw.len(), mode),
    ensures
        spec_initial_params(basis, raw, mode).len() == basis.spec_parameter_count(raw.len(), mode),
        mode == WaveformMode::PolarPhase ==> ({
            let x = spec_initial_params(basis, raw, mode);
            x[x.len() - 1] == x[x.len() - 2]
        }),
{
}

/// The error text for more basis functions than points in the pulse.
pub open spec fn too_few_points_message(ncols: nat, n_pulse: nat) -> Seq<char> {
    decimal(ncols) + " basis functions need at least "@ + decimal(ncols) + " points in the pulse, not "@ + decimal(
        n_pulse,
    )
}

/// The error text for an envelope sampled on another grid than the pulse.
pub open spec fn envelope_length_message() -> Seq<char> {
    "envelope length differs from the number of pulse points"@
}

/// Whether one qubit's basis can be built, and with how many columns: the coefficient count must suit the basis
/// and mode, there must be at least as many points in the pulse as basis functions, and the envelope must be
/// sampled on the pulse's points.  The checks come in that order.
pub fn qubit_basis_columns(
    basis: BasisKind,
    n_para: usize,
    mode: WaveformMode,
    n_pulse: usize,
    envelope_len: usize,
) -> (res: Result<usize>)
    ensures
        !basis.spec_n_para_ok(n_para as nat, mode) ==> (res matches Err(Error::Config(m)) && m@
            == basis.n_para_message(n_para as nat, mode)),
        basis.spec_n_para_ok(n_para as nat, mode) && basis.spec_columns(n_para as nat, mode) > n_pulse ==> (res matches Err(
            Error::Config(m),
        ) && m@ == too_few_points_message(basis.spec_columns(n_para as nat, mode), n_pulse as nat)),
        basis.spec_n_para_ok(n_para as nat, mode) && basis.spec_columns(n_para as nat, mode) <= n_pulse
            && envelope_len != n_pulse ==> (res matches Err(Error::Dimension(m)) && m@ == envelope_length_message()),
        basis.spec_n_para_ok(n_para as nat, mode) && basis.spec_columns(n_para as nat, mode) <= n_pulse
            && envelope_len == n_pulse ==> res == Ok::<usize, Error>(basis.spec_columns(n_para as nat, mode) as usize),
{
    match basis.check_n_para(n_para, mode) {
        Err(m) => {
            return Err(Error::Config(m));
        },
        Ok(()) => {},
    }
    let ncols = basis.columns(n_para, mode);
    if ncols > n_pulse {
        let mut m = decimal_string(ncols);
        m.append(" basis functions need at least ");
        m.append(decimal_string(ncols).as_str());
        m.append(" points in the pulse, not ");
        m.append(decimal_string(n_pulse).as_str());
        return Err(Error::Config(m));
    }
    if envelope_len != n_pulse {
        return Err(Error::Dimension(String::from_str("envelope length differs from the number of pulse points")));
    }
    Ok(ncols)
}

} // verus!
