//! What can go wrong.

use vstd::prelude::*;

verus! {

/// Errors of the routing layer.
#[derive(Clone, Copy, Debug, PartialEq, Eq, Structural)]
pub enum RoutingError {
    /// A value could not be turned into bytes, or bytes not into a value.
    SerialisationError,
    /// The signatures do not make up a valid proof of the new section info.
    InvalidNewSectionInfo,
    /// A message is not signed as it should be.
    FailedSignature,
    /// The node has terminated.
    Terminated,
}

/// Errors that the user of a node is told of.
#[derive(Clone, Copy, Debug, PartialEq, Eq, Structural)]
pub enum InterfaceError {
    /// The node has dropped the channel for the answer.
    ChannelClosed,
}

} // verus!
