//! The decision logic of a build server: sandboxed filesystems, the query graph, source monitoring and
//! rule analysis, stated and proved over plain values.

pub mod api;
pub mod base;
pub mod fs;
pub mod graph;
pub mod runtime;
pub mod server;
pub mod source;
