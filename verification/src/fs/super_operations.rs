//! Superblock operation table, dispatched by driver tag.

use vstd::prelude::*;

verus! {

/// The driver implementing one superblock operation slot.
#[derive(Clone, Copy, PartialEq, Eq, Structural, Debug)]
pub enum SuperOpImpl {
    Ramfs,
}

/// Optional implementations for the superblock-level operations.
#[derive(Clone, Copy, PartialEq, Eq, Structural, Debug)]
pub struct SuperOperations {
    pub read_inode: Option<SuperOpImpl>,
    pub write_inode: Option<SuperOpImpl>,
    pub put_inode: Option<SuperOpImpl>,
    pub put_super: Option<SuperOpImpl>,
    pub write_super: Option<SuperOpImpl>,
    pub statfs: Option<SuperOpImpl>,
    pub remount_fs: Option<SuperOpImpl>,
    pub drop_inode: Option<SuperOpImpl>,
}

} // verus!
