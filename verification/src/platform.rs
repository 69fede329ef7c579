//! What the host offers, and a file the user chose, waiting to be read.

use vstd::prelude::*;

use crate::edit::opt_view;
use crate::text::str_eq;

verus! {

/// Facts about the host that change what the interface offers.
#[derive(Debug, Clone, Copy, PartialEq, Eq)]
pub struct Platform {
    /// Running in a browser rather than as a desktop application.
    pub is_web: bool,
    /// Threads a run is spread over by default.  One in the browser, whose WebAssembly build has no threads.
    pub cores: usize,
}

/// Most qubits the interface offers natively: the state space grows as 2ⁿ (3ⁿ for transmons with leakage).
pub const MAX_QUBITS: usize = 4;

/// Most qubits the interface offers in the browser, where everything runs on one thread.
pub const MAX_WEB_QUBITS: usize = 3;

impl Platform {
    /// Most qubits the interface offers on this platform.
    pub fn max_qubits(&self) -> (m: usize)
        ensures
            m == if self.is_web { MAX_WEB_QUBITS } else { MAX_QUBITS },
    {
        if self.is_web {
            MAX_WEB_QUBITS
        } else {
            MAX_QUBITS
        }
    }

    /// Whether a qubit can be added to `n`: below the platform's limit.
    pub fn can_add_qubit(&self, n: usize) -> (b: bool)
        ensures
            b == (n < if self.is_web { MAX_WEB_QUBITS } else { MAX_QUBITS }),
    {
        n < self.max_qubits()
    }
}

/// Whether a qubit can be removed from `n`: one always stays.
pub fn can_remove_qubit(n: usize) -> (b: bool)
    ensures
        b == (n > 1),
{
    n > 1
}

/// Whether relaxation can be switched on for the model: not for three-level transmons.
pub fn relaxation_allowed(model: Option<&str>) -> (b: bool)
    ensures
        b == (opt_view(model) != Some("duffing_transmon"@)),
{
    match model {
        Some(m) => !str_eq(m, "duffing_transmon"),
        None => true,
    }
}

/// A text file the user chose, or why it could not be read, until it is taken.
pub struct FilePicker {
    pending: Option<core::result::Result<String, String>>,
}

impl FilePicker {
    /// What is waiting to be taken.
    pub closed spec fn spec_pending(&self) -> Option<core::result::Result<String, String>> {
        self.pending
    }

    /// Nothing chosen yet.
    pub fn new() -> (p: FilePicker)
        ensures
            p.spec_pending() is None,
    {
        FilePicker { pending: None }
    }

    /// Hold a file's text, or why it could not be read, for the next [`take`](Self::take).
    pub fn deliver(&mut self, text: core::result::Result<String, String>)
        ensures
            final(self).spec_pending() == Some(text),
    {
        self.pending = Some(text);
    }

    /// The chosen file's text, once.
    pub fn take(&mut self) -> (r: Option<core::result::Result<String, String>>)
        ensures
            r == old(self).spec_pending(),
            final(self).spec_pending() is None,
    {
        self.pending.take()
    }
}

impl Default for FilePicker {
    fn default() -> (p: FilePicker)
        ensures
            p.spec_pending() is None,
    {
        FilePicker { pending: None }
    }
}

} // verus!
