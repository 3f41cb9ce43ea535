//! Per-inode file operation table.
//!
//! Each slot names the driver whose routine services that operation; an empty
//! slot means the operation is unsupported on the inode. The VFS layer
//! dispatches on the tag, so the table plays the role of a record of optional
//! function pointers while staying analysable.

use vstd::prelude::*;

verus! {

/// The driver implementing one file operation slot.
#[derive(Clone, Copy, PartialEq, Eq, Structural, Debug)]
pub enum FileOpImpl {
    Ramfs,
}

/// Optional implementations for open, release, read, and write.
#[derive(Clone, Copy, PartialEq, Eq, Structural, Debug)]
pub struct FileOperations {
    pub open: Option<FileOpImpl>,
    pub release: Option<FileOpImpl>,
    pub read: Option<FileOpImpl>,
    pub write: Option<FileOpImpl>,
}

} // verus!
