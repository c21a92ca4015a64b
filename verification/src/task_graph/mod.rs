//! Allocation-free task graph representation, validation, and runtime state.

pub mod types;
pub mod graph;
pub mod counting;
pub mod validate;
pub mod state;
pub mod laws;
