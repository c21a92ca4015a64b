//! Inference-runtime transport failures and the application's cooperative
//! shutdown sequence.

pub mod errors;
pub mod footprint;
pub mod shutdown;
