//! The inode: identity and metadata of a filesystem object, independent of
//! any name. Raw back-pointers of a classical kernel become stable ids here:
//! superblocks are indices into the VFS superblock arena, and the dentries
//! naming this inode are indices into the dentry arena.

use crate::fs::file_operations::FileOperations;
use crate::fs::inode_operations::InodeOperations;
use crate::types::{Gid, Mode, Uid};
use vstd::prelude::*;

verus! {

/// A filesystem object. File content is not stored here: the in-memory
/// driver keeps a per-ino byte buffer in its own store, keyed by `i_ino`.
#[verifier::ext_equal]
pub struct Inode {
    pub i_ino: u64,
    pub i_count: u32,
    pub i_mode: Mode,
    pub i_uid: Uid,
    pub i_gid: Gid,
    /// File size in bytes.
    pub i_size: u64,
    /// Superblock this inode belongs to (index into the superblock arena).
    pub i_sb: Option<usize>,
    pub file_operations: Option<FileOperations>,
    pub inode_operations: Option<InodeOperations>,
    /// Dentries that name this inode (indices into the dentry arena).
    pub i_dentry: Vec<usize>,
}

} // verus!
