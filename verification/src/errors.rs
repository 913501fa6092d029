//! Errors of the library.
use vstd::prelude::*;

verus! {

/// What a call of the library can fail with.
#[derive(Clone, Copy, Debug, PartialEq, Eq, Structural)]
pub enum NovaError {
    /// The arguments do not fit together: a polynomial is too large for the key, or two
    /// lists have different lengths.
    InvalidIPA,
}

} // verus!
