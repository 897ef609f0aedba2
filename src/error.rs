//! Failures of the host-guest bridge.
use vstd::prelude::*;

verus! {

/// What can go wrong while moving a value across the boundary.
#[derive(Clone, Copy, Debug, PartialEq, Eq, Structural)]
pub enum BridgeError {
    /// The guest module did not compile or did not link against the host's imports.
    InstantiationError,
    /// The encoder could not obtain the memory it needed.
    AllocationFailure,
    /// The bytes are not an archive of a [`crate::value::SharedStruct`].
    CorruptEncoding,
    /// A (pointer, length) handle lies outside the memory it refers to.
    BoundaryViolation,
    /// The decoded value lacks the items that the guest transform rewrites.
    TransformRejected,
}

} // verus!
