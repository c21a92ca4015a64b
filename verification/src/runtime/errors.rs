//! Runtime admission and host-transport failures.

use vstd::prelude::*;

verus! {

/// Memory domain whose aggregate budget was exceeded.
#[derive(Clone, Copy, Debug, PartialEq, Eq, Structural)]
pub enum MemoryKind {
    /// Host-addressable memory.
    Host,
    /// Device-local memory.
    Device,
}

/// Non-blocking submission failure retaining ownership of the command.
pub enum RuntimeSubmitError<C> {
    /// The bounded command queue is full.
    Full(C),
    /// The runtime worker has stopped.
    Disconnected(C),
}

/// Event receive failure.
#[derive(Clone, Copy, Debug, PartialEq, Eq, Structural)]
pub enum RuntimeReceiveError {
    /// No event arrived before the requested timeout.
    Timeout,
    /// The runtime worker has stopped and no events remain.
    Disconnected,
}

} // verus!
