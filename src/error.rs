use vstd::prelude::*;

verus! {

/// Why an operation of the scheme did not complete.
#[derive(Clone, Copy, Debug, PartialEq, Eq, Structural)]
pub enum PpssError {
    /// Malformed threshold or party counts, or a response count that does not
    /// match the number of servers.
    InvalidParameters,
    /// A value could not be encoded or decoded canonically.
    SerializationError,
    /// The reconstruction check did not match.
    IntegrityCheckFailed,
    /// Duplicate share indices during interpolation.
    InterpolationError,
}

} // verus!
