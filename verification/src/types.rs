//! Plain newtype identifiers shared across the kernel.

use vstd::prelude::*;

verus! {

/// A process identifier.
#[derive(Clone, Copy, PartialEq, Eq, Structural, Debug)]
pub struct Pid(pub u32);

/// A user identifier, as stored on inodes.
#[derive(Clone, Copy, PartialEq, Eq, Structural, Debug)]
pub struct Uid(pub u32);

/// A group identifier, as stored on inodes.
#[derive(Clone, Copy, PartialEq, Eq, Structural, Debug)]
pub struct Gid(pub u32);

/// The access mode of an open file: bit 0 grants reads, bit 1 grants writes.
#[derive(Clone, Copy, PartialEq, Eq, Structural, Debug)]
pub struct FMode(pub u32);

/// A device number recorded in a superblock.
#[derive(Clone, Copy, PartialEq, Eq, Structural, Debug)]
pub struct Dev(pub u32);

/// File type and permission bits, in the usual octal layout.
#[derive(Clone, Copy, PartialEq, Eq, Structural, Debug)]
pub struct Mode(pub u16);

/// The file-type bit that marks a directory inode.
pub const MODE_DIRECTORY_BIT: u16 = 0o40000;

impl Mode {
    /// Whether the directory file-type bit is set.
    pub open spec fn is_directory_spec(self) -> bool {
        self.0 & MODE_DIRECTORY_BIT == MODE_DIRECTORY_BIT
    }

    /// Whether the directory file-type bit is set.
    #[verifier::when_used_as_spec(is_directory_spec)]
    pub fn is_directory(self) -> (r: bool)
        ensures
            r == self.is_directory_spec(),
    {
        self.0 & MODE_DIRECTORY_BIT == MODE_DIRECTORY_BIT
    }
}

impl FMode {
    /// Whether this open mode permits reading.
    pub open spec fn readable_spec(self) -> bool {
        self.0 & 0o1 == 0o1
    }

    /// Whether this open mode permits reading.
    #[verifier::when_used_as_spec(readable_spec)]
    pub fn readable(self) -> (r: bool)
        ensures
            r == self.readable_spec(),
    {
        self.0 & 0o1 == 0o1
    }

    /// Whether this open mode permits writing.
    pub open spec fn writable_spec(self) -> bool {
        self.0 & 0o2 == 0o2
    }

    /// Whether this open mode permits writing.
    #[verifier::when_used_as_spec(writable_spec)]
    pub fn writable(self) -> (r: bool)
        ensures
            r == self.writable_spec(),
    {
        self.0 & 0o2 == 0o2
    }
}

} // verus!
