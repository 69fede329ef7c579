//! Quantum gate and pulse design by optimal control: the configuration logic, the matrix container, the
//! name registries and the optimiser bookkeeping, verified.

pub mod analysis;
pub mod basis;
pub mod config;
pub mod edit;
pub mod error;
pub mod hamiltonian;
pub mod linalg;
pub mod model_edits;
pub mod optim;
pub mod platform;
pub mod qubit_count;
pub mod session;
pub mod text;
pub mod view;

pub use error::{Error, Result};
