//! Portable identifiers and capacity failures shared by the workflow graph
//! and the model-metadata inspector.

use vstd::prelude::*;

verus! {

/// Stable identity of one workflow task.
#[derive(Clone, Copy, Debug, PartialEq, Eq, Structural)]
pub struct TaskId {
    value: u64,
}

impl TaskId {
    /// Creates a task identity from its raw value.
    pub fn new(value: u64) -> (id: Self)
        ensures
            id.raw() == value,
    {
        TaskId { value }
    }

    /// Raw value of the identity.
    pub closed spec fn raw(self) -> u64 {
        self.value
    }

    /// Returns the raw identity value.
    pub fn get(&self) -> (value: u64)
        ensures
            value == self.raw(),
    {
        self.value
    }

    /// Two identities are equal exactly when their raw values are.
    pub proof fn lemma_raw_injective(a: TaskId, b: TaskId)
        ensures
            (a == b) <==> (a.raw() == b.raw()),
    {
    }
}

/// Stable identity of one logical model.
#[derive(Clone, Copy, Debug, PartialEq, Eq, Structural)]
pub struct ModelId {
    value: u64,
}

impl ModelId {
    /// Creates a model identity from its raw value.
    pub fn new(value: u64) -> (id: Self)
        ensures
            id.raw() == value,
    {
        ModelId { value }
    }

    /// Raw value of the identity.
    pub closed spec fn raw(self) -> u64 {
        self.value
    }

    /// Returns the raw identity value.
    pub fn get(&self) -> (value: u64)
        ensures
            value == self.raw(),
    {
        self.value
    }
}

/// Stable identity of one inference backend implementation.
#[derive(Clone, Copy, Debug, PartialEq, Eq, Structural)]
pub struct BackendId {
    value: u32,
}

impl BackendId {
    /// Creates a backend identity from its raw value.
    pub fn new(value: u32) -> (id: Self)
        ensures
            id.raw() == value,
    {
        BackendId { value }
    }

    /// Raw value of the identity.
    pub closed spec fn raw(self) -> u32 {
        self.value
    }

    /// Returns the raw identity value.
    pub fn get(&self) -> (value: u32)
        ensures
            value == self.raw(),
    {
        self.value
    }
}

/// Stable identity of one immutable workflow artifact.
#[derive(Clone, Copy, Debug, PartialEq, Eq, Structural)]
pub struct ArtifactId {
    value: u64,
}

impl ArtifactId {
    /// Creates an artifact identity from its raw value.
    pub fn new(value: u64) -> (id: Self)
        ensures
            id.raw() == value,
    {
        ArtifactId { value }
    }

    /// Raw value of the identity.
    pub closed spec fn raw(self) -> u64 {
        self.value
    }

    /// Returns the raw identity value.
    pub fn get(&self) -> (value: u64)
        ensures
            value == self.raw(),
    {
        self.value
    }
}

/// Fixed-capacity resource whose bound was reached.
#[derive(Clone, Copy, Debug, PartialEq, Eq, Structural)]
pub enum CapacityResource {
    /// Workflow graph nodes or node-indexed scratch entries.
    TaskNodes,
    /// Incoming workflow edges of one node.
    TaskEdges,
}

/// A caller-owned or configured capacity was too small.
#[derive(Clone, Copy, Debug, PartialEq, Eq, Structural)]
pub struct CapacityExhausted {
    /// Resource whose bound was reached.
    pub resource: CapacityResource,
    /// Capacity required by the attempted operation.
    pub required: u64,
    /// Capacity that was available.
    pub available: u64,
}

impl CapacityExhausted {
    /// Creates a capacity failure.
    pub fn new(resource: CapacityResource, required: u64, available: u64) -> (failure: Self)
        ensures
            failure == (CapacityExhausted { resource, required, available }),
    {
        CapacityExhausted { resource, required, available }
    }
}

} // verus!
