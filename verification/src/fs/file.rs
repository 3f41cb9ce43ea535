//! An open file: a cursor over an inode.

use crate::types::FMode;
use vstd::prelude::*;

verus! {

/// An open file, owned by whichever file-descriptor slot holds it.
#[derive(Clone, Copy)]
#[verifier::ext_equal]
pub struct File {
    /// The backing inode's number, if the file is attached to one.
    pub f_inode: Option<u64>,
    /// Access mode granted at open.
    pub f_mode: FMode,
    /// Read/write position in bytes.
    pub f_pos: u64,
}

} // verus!
