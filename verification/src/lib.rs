//! Verified core of a layered local language-model workspace: workflow task
//! graphs, GGUF metadata inspection, persisted record encoding, the
//! workspace dependency-tier policy, and the decisions of a cooperative
//! application shutdown.

pub mod bytes;
pub mod identifiers;
pub mod runtime;
pub mod storage;
pub mod task_graph;
pub mod text;
pub mod workspace;
pub mod gguf;
