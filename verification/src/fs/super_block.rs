//! The superblock: one mounted filesystem instance.

use crate::fs::super_operations::SuperOperations;
use crate::types::Dev;
use vstd::prelude::*;

verus! {

/// A mounted-filesystem record.
#[verifier::ext_equal]
pub struct SuperBlock {
    pub s_dev: Dev,
    /// Root dentry of this mount (index into the dentry arena).
    pub s_root: Option<usize>,
    pub s_op: Option<SuperOperations>,
    /// The registered filesystem driver this mount came from.
    pub s_fs: Option<usize>,
}

} // verus!
