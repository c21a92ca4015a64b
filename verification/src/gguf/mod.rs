//! GGUF model-file metadata: the header format and the facts a backend
//! needs before loading tensor data.

pub mod format;
pub mod metadata;
pub mod laws;
