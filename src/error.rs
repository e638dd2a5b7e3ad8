use vstd::prelude::*;

verus! {

/// Why an operation was refused. Each kind is fatal to the call.
#[derive(Clone, Copy, Debug, PartialEq, Eq, Structural)]
pub enum Error {
    /// Malformed input, such as a zero amount.
    InvalidArgument,
    /// The caller lacks the identity or grant the operation needs.
    Unauthorized,
    /// The referenced loan does not exist.
    NotFound,
    /// The operation does not apply to the loan in its current status.
    InvalidState,
    /// A remote call whose failure is not tolerated did not answer.
    DependencyFailure,
    /// A balance would pass its largest value.
    Overflow,
}

} // verus!
