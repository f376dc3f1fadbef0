//! Errors that circuit construction can end with.

use vstd::prelude::*;

verus! {

/// Why laying out a circuit failed.
#[derive(Clone, Copy, Debug, PartialEq, Eq, Structural)]
pub enum Error {
    /// A value that had to be read was still unknown.
    Synthesis,
    /// The layout needs more rows than the table has.
    OutOfRows,
}

impl Error {
    /// A short description of the cause.
    pub fn message(&self) -> (r: &'static str)
        ensures
            r@ == match *self {
                Error::Synthesis => "a witness value was required but is unknown"@,
                Error::OutOfRows => "the circuit needs more rows than the table has"@,
            },
    {
        match self {
            Error::Synthesis => "a witness value was required but is unknown",
            Error::OutOfRows => "the circuit needs more rows than the table has",
        }
    }
}

} // verus!
