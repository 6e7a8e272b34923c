//! The system interface that a guest calls: descriptors, rights, paths and the calls themselves.

pub mod descriptors;
pub mod environment;
pub mod guest_bytes;
pub mod navigation;
pub mod rights;
pub mod types;
pub mod wasi;
