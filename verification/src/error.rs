//! The ways in which an inspection can fail.

use vstd::prelude::*;

verus! {

/// Why an operation stopped without a result.
#[derive(Clone, Copy, Debug, PartialEq, Eq, Structural)]
pub enum InspectError {
    /// A read-only call failed: the network, the decoding of the reply, or a
    /// revert.
    Transport,
    /// A value that had to be there was empty, such as the code of a contract.
    NotFound,
    /// A log topic does not have the shape of the value expected in it.
    Shape,
    /// The caller asked for something before the step that provides it.
    Precondition,
}

} // verus!
