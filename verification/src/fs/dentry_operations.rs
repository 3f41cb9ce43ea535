//! Dentry operation table, dispatched by driver tag. No in-tree driver fills
//! these slots; the record exists so a future driver can.

use vstd::prelude::*;

verus! {

/// The driver implementing one dentry operation slot.
#[derive(Clone, Copy, PartialEq, Eq, Structural, Debug)]
pub enum DentryOpImpl {
    Ramfs,
}

/// Optional implementations for dentry setup and teardown.
#[derive(Clone, Copy, PartialEq, Eq, Structural, Debug)]
pub struct DentryOperations {
    pub dentry_init: Option<DentryOpImpl>,
    pub dentry_release: Option<DentryOpImpl>,
}

} // verus!
