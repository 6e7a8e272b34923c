//! Texts, bytes, paths and tables that the other modules are built on.

pub mod bytes;
pub mod digest;
pub mod name_set;
pub mod name_table;
pub mod paths;
pub mod slab_map;
pub mod text;
