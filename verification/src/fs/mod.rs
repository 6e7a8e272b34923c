//! The filesystems that a guest can see.

pub mod devices;
pub mod memory_handle;
pub mod memory_roots;
pub mod memory_tar;
pub mod memory_tree;
pub mod named_workspaces;
pub mod pipe;
pub mod system_fs;
pub mod tar_archive;
pub mod windows_fs;
