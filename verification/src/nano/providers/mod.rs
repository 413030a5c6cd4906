//! Inference transports.
pub mod sse;
