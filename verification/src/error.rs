//! The crate's error type.
//!
//! Every failure is a typed value that propagates through [`Result`], so a caller can show it instead of
//! crashing.

use vstd::prelude::*;

verus! {

/// Everything that can go wrong inside ctrl-freeq.
#[derive(Debug, Clone, PartialEq)]
pub enum Error {
    /// The configuration is missing a value, has an inconsistent one, or names something unknown.
    Config(String),
    /// A valid request for something this version does not implement.
    NotSupported(String),
    /// Two operands have shapes that do not line up.
    Dimension(String),
    /// A numerical routine failed or produced a non-finite value.
    Numerical(String),
    /// Reading or writing a file failed.
    Io(String),
}

/// Convenience alias used throughout the crate.
pub type Result<T> = core::result::Result<T, Error>;

impl Error {
    /// The kind's prefix followed by the detail.
    pub open spec fn spec_message(self) -> Seq<char> {
        match self {
            Error::Config(s) => "invalid configuration: "@ + s@,
            Error::NotSupported(s) => "not supported: "@ + s@,
            Error::Dimension(s) => "dimension mismatch: "@ + s@,
            Error::Numerical(s) => "numerical failure: "@ + s@,
            Error::Io(s) => "io error: "@ + s@,
        }
    }

    /// The error as a sentence: the kind's prefix followed by the detail.
    pub fn to_string(&self) -> (r: String)
        ensures
            r@ == self.spec_message(),
    {
        let (prefix, detail) = match self {
            Error::Config(s) => ("invalid configuration: ", s),
            Error::NotSupported(s) => ("not supported: ", s),
            Error::Dimension(s) => ("dimension mismatch: ", s),
            Error::Numerical(s) => ("numerical failure: ", s),
            Error::Io(s) => ("io error: ", s),
        };
        let mut r = String::from_str(prefix);
        r.append(detail.as_str());
        r
    }
}

} // verus!
