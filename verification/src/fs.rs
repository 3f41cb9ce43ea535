//! The virtual filesystem: entity graph, path resolution, file I/O, and the
//! in-memory filesystem driver.

pub mod dentry;
pub mod dentry_operations;
pub mod file;
pub mod file_operations;
pub mod inode;
pub mod inode_operations;
pub mod path;
pub mod ramfs;
pub mod super_block;
pub mod super_operations;
pub mod vfs;
