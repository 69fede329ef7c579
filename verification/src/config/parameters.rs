//! The physical and pulse parameters of a configuration, generic over the number type of its physical values.

use vstd::prelude::*;

use super::{Coverage, WaveformMode};

verus! {

/// Physical and pulse parameters.  Lists have one entry per qubit unless noted; `F` is the type of a physical
/// value (frequencies in Hz, times in seconds).
#[derive(Clone, Debug)]
pub struct Parameters<F> {
    /// Offset per qubit.  Absent means zero.
    pub delta: Option<Vec<F>>,
    /// Standard deviation of the offset.  Absent means zero.
    pub sigma_delta: Option<Vec<F>>,
    /// Maximum Rabi frequency.
    pub omega_r_max: Vec<F>,
    /// Standard deviation of the Rabi frequency.
    pub sigma_omega_r_max: Vec<F>,
    /// Pulse duration.  Only the first entry is used.
    pub pulse_duration: Vec<F>,
    /// Number of time points in the pulse.  Only the first entry is used.
    pub point_in_pulse: Vec<usize>,
    /// Basis per qubit.
    pub wf_type: Vec<String>,
    /// Waveform parametrisation per qubit.
    pub wf_mode: Vec<WaveformMode>,
    /// Amplitude envelope per qubit.
    pub amplitude_envelope: Vec<String>,
    /// Envelope order per qubit.
    pub amplitude_order: Vec<u32>,
    /// Offset coverage per qubit.
    pub coverage: Vec<Coverage>,
    /// Sweep width.
    pub sw: Vec<F>,
    /// Carrier offset of the pulse.
    pub pulse_offset: Vec<F>,
    /// Excitation bandwidth, for the selective coverages.
    pub pulse_bandwidth: Vec<F>,
    /// Fraction of offsets sampled outside the band, for the selective coverages.
    pub ratio_factor: Vec<F>,
    /// Super-Gaussian order of the band-selective profile.
    pub profile_order: Vec<u32>,
    /// Number of basis coefficients per qubit.
    pub n_para: Vec<usize>,
    /// Coupling matrix, `n × n`.  Absent means zero.
    pub j: Option<Vec<Vec<F>>>,
    /// Coupling type.
    pub coupling_type: Option<String>,
    /// Standard deviation of the non-zero couplings.
    pub sigma_j: Option<F>,
    /// Amplitude-damping time T1, dissipative mode only.
    pub t1: Option<Vec<F>>,
    /// Coherence time T2, dissipative mode only.
    pub t2: Option<Vec<F>>,
    /// Transmon anharmonicities.
    pub anharmonicities: Option<Vec<F>>,
    /// Calibrated static ZZ coupling matrix.
    pub zz_crosstalk: Option<Vec<Vec<F>>>,
    /// AC Stark shift coefficients.
    pub stark_shift_coeffs: Option<Vec<F>>,
}

/// The list `v` has `n` entries where it is present.
pub open spec fn opt_len<T>(v: Option<Vec<T>>, n: nat) -> bool {
    v matches Some(w) ==> w@.len() == n
}

/// The matrix `m` is `n × n`.
pub open spec fn is_square<T>(m: Seq<Vec<T>>, n: nat) -> bool {
    m.len() == n && forall|i: int| 0 <= i < n ==> (#[trigger] m[i])@.len() == n
}

impl<F> Parameters<F> {
    /// Every per-qubit list has `n` entries, the coupling matrix is present and `n × n`, and the crosstalk matrix,
    /// where present, is `n × n` too.
    pub open spec fn per_qubit(self, n: nat) -> bool {
        &&& opt_len(self.delta, n)
        &&& opt_len(self.sigma_delta, n)
        &&& self.omega_r_max@.len() == n
        &&& self.sigma_omega_r_max@.len() == n
        &&& self.pulse_duration@.len() == n
        &&& self.point_in_pulse@.len() == n
        &&& self.wf_type@.len() == n
        &&& self.wf_mode@.len() == n
        &&& self.amplitude_envelope@.len() == n
        &&& self.amplitude_order@.len() == n
        &&& self.coverage@.len() == n
        &&& self.sw@.len() == n
        &&& self.pulse_offset@.len() == n
        &&& self.pulse_bandwidth@.len() == n
        &&& self.ratio_factor@.len() == n
        &&& self.profile_order@.len() == n
        &&& self.n_para@.len() == n
        &&& opt_len(self.t1, n)
        &&& opt_len(self.t2, n)
        &&& opt_len(self.anharmonicities, n)
        &&& opt_len(self.stark_shift_coeffs, n)
        &&& (self.j matches Some(j) && is_square(j@, n))
        &&& (self.zz_crosstalk matches Some(z) ==> is_square(z@, n))
    }
}

} // verus!
