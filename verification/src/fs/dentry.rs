//! The dentry: a directory entry naming an inode within a parent. Dentries
//! live in an arena inside the VFS; parent and children are arena indices,
//! and a dentry's index is always greater than its parent's, which makes
//! every parent chain finite.

use crate::fs::dentry_operations::DentryOperations;
use vstd::prelude::*;

verus! {

/// A directory entry. `d_parent` is `None` only for tree roots and for
/// freshly allocated entries not yet linked anywhere.
#[verifier::ext_equal]
pub struct Dentry {
    /// Component name, as raw bytes.
    pub d_name: Vec<u8>,
    /// Inode this entry names, if any (an ino in the global inode table).
    pub d_inode: Option<u64>,
    /// Superblock of the filesystem this entry belongs to.
    pub d_sb: Option<usize>,
    pub d_op: Option<DentryOperations>,
    /// Containing directory (index into the dentry arena).
    pub d_parent: Option<usize>,
    /// Child entries (indices into the dentry arena), names unique.
    pub d_subdirs: Vec<usize>,
}

} // verus!
