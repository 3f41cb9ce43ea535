//! Per-inode directory operation table, dispatched by driver tag like the
//! file operation table.

use vstd::prelude::*;

verus! {

/// The driver implementing one inode operation slot.
#[derive(Clone, Copy, PartialEq, Eq, Structural, Debug)]
pub enum InodeOpImpl {
    Ramfs,
}

/// Optional implementations for the directory-level operations.
#[derive(Clone, Copy, PartialEq, Eq, Structural, Debug)]
pub struct InodeOperations {
    pub lookup: Option<InodeOpImpl>,
    pub create: Option<InodeOpImpl>,
    pub mkdir: Option<InodeOpImpl>,
    pub unlink: Option<InodeOpImpl>,
    pub link: Option<InodeOpImpl>,
    pub symlink: Option<InodeOpImpl>,
    pub rmdir: Option<InodeOpImpl>,
    pub rename: Option<InodeOpImpl>,
}

} // verus!
