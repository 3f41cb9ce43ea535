//! The in-memory filesystem driver: per-ino byte buffers plus the operation
//! implementations the tags in the operation tables dispatch to.

use crate::fs::file_operations::{FileOpImpl, FileOperations};
use crate::fs::inode_operations::{InodeOpImpl, InodeOperations};
use crate::fs::super_block::SuperBlock;
use crate::fs::super_operations::{SuperOpImpl, SuperOperations};
use crate::fs::inode::Inode;
use crate::fs::dentry::Dentry;
use crate::fs::vfs::{allocate_empty_inode, allocates_ino, Filesystem, KillSbImpl, MountImpl, Vfs, MAX_INODES};
use crate::types::{Dev, Gid, Mode, Uid};
use vstd::prelude::*;

verus! {

/// The bytes a store holds for an ino: its buffer, or empty when it has none.
pub open spec fn stored_data(s: RamfsStore, ino: u64) -> Seq<u8> {
    if s.contains_spec(ino) {
        s.data_of(ino)
    } else {
        Seq::<u8>::empty()
    }
}

/// The content of a byte buffer after writing `buf` at offset `pos`: the
/// buffer grows to cover the write if needed, any gap below `pos` is
/// zero-filled, and bytes outside the written range keep their old values.
pub open spec fn write_bytes(data: Seq<u8>, pos: nat, buf: Seq<u8>) -> Seq<u8> {
    let newlen = if pos + buf.len() > data.len() {
        pos + buf.len()
    } else {
        data.len()
    };
    Seq::new(
        newlen,
        |m: int|
            if pos <= m < pos + buf.len() {
                buf[m - pos]
            } else if m < data.len() {
                data[m]
            } else {
                0u8
            },
    )
}

/// The driver's data store: one growable byte buffer per ino. Keys are
/// unique; order is immaterial.
#[verifier::ext_equal]
pub struct RamfsStore {
    pub entries: Vec<(u64, Vec<u8>)>,
}

impl RamfsStore {
    /// Keys are unique.
    pub open spec fn wf(self) -> bool {
        forall|i: int, j: int|
            0 <= i < j < self.entries@.len() ==> self.entries@[i].0 != self.entries@[j].0
    }

    /// Whether a buffer exists for this ino.
    pub open spec fn contains_spec(self, ino: u64) -> bool {
        exists|i: int| 0 <= i < self.entries@.len() && self.entries@[i].0 == ino
    }

    /// The store index of this ino's buffer.
    pub open spec fn idx_of(self, ino: u64) -> int {
        choose|i: int| 0 <= i < self.entries@.len() && self.entries@[i].0 == ino
    }

    /// The bytes stored for this ino.
    pub open spec fn data_of(self, ino: u64) -> Seq<u8> {
        self.entries@[self.idx_of(ino)].1@
    }

    /// With unique keys, any index holding `ino` is the index `data_of`
    /// speaks of.
    pub proof fn lemma_idx_of(self, ino: u64, i: int)
        requires
            self.wf(),
            0 <= i < self.entries@.len(),
            self.entries@[i].0 == ino,
        ensures
            self.contains_spec(ino),
            self.idx_of(ino) == i,
            self.data_of(ino) == self.entries@[i].1@,
    {
        assert(self.contains_spec(ino));
        let j = self.idx_of(ino);
        if i < j {
            assert(self.entries@[i].0 != self.entries@[j].0);
        } else if j < i {
            assert(self.entries@[j].0 != self.entries@[i].0);
        }
    }

    /// An empty store.
    pub fn new() -> (r: RamfsStore)
        ensures
            r.wf(),
            r.entries@.len() == 0,
            forall|ino: u64| !r.contains_spec(ino),
    {
        RamfsStore { entries: Vec::new() }
    }

    /// Finds the store index of this ino's buffer.
    pub fn find(&self, ino: u64) -> (r: Option<usize>)
        ensures
            match r {
                Some(i) => i < self.entries@.len() && self.entries@[i as int].0 == ino
                    && self.contains_spec(ino),
                None => !self.contains_spec(ino),
            },
    {
        let n = self.entries.len();
        let mut i: usize = 0;
        while i < n
            invariant
                n == self.entries@.len(),
                i <= n,
                forall|j: int| 0 <= j < i ==> self.entries@[j].0 != ino,
            decreases n - i,
        {
            if self.entries[i].0 == ino {
                return Some(i);
            }
            i = i + 1;
        }
        None
    }

    /// Stores `data` for `ino`, replacing any previous buffer.
    pub fn ramfs_set_data(&mut self, ino: u64, data: Vec<u8>)
        requires
            old(self).wf(),
        ensures
            final(self).wf(),
            final(self).contains_spec(ino),
            final(self).data_of(ino) == data@,
            forall|k: u64|
                k != ino ==> #[trigger] final(self).contains_spec(k) == old(self).contains_spec(k),
            forall|k: u64|
                k != ino && old(self).contains_spec(k)
                    ==> #[trigger] final(self).data_of(k) == old(self).data_of(k),
    {
        let found = self.find(ino);
        match found {
            Some(i) => {
                self.entries[i] = (ino, data);
                proof {
                    self.lemma_idx_of(ino, i as int);
                    assert forall|k: u64| k != ino implies
                        #[trigger] self.contains_spec(k) == old(self).contains_spec(k) by {
                        if old(self).contains_spec(k) {
                            let jk = old(self).idx_of(k);
                            assert(self.entries@[jk].0 == k);
                        }
                        if self.contains_spec(k) {
                            let jk = self.idx_of(k);
                            assert(old(self).entries@[jk].0 == k);
                        }
                    }
                    assert forall|k: u64| k != ino && old(self).contains_spec(k) implies
                        #[trigger] self.data_of(k) == old(self).data_of(k) by {
                        let jk = old(self).idx_of(k);
                        assert(self.entries@[jk].0 == k);
                        self.lemma_idx_of(k, jk);
                        old(self).lemma_idx_of(k, jk);
                    }
                }
            },
            None => {
                self.entries.push((ino, data));
                proof {
                    let n = old(self).entries@.len() as int;
                    self.lemma_idx_of(ino, n);
                    assert forall|k: u64| k != ino implies
                        #[trigger] self.contains_spec(k) == old(self).contains_spec(k) by {
                        if old(self).contains_spec(k) {
                            let jk = old(self).idx_of(k);
                            assert(self.entries@[jk].0 == k);
                        }
                        if self.contains_spec(k) {
                            let jk = self.idx_of(k);
                            assert(jk != n);
                            assert(old(self).entries@[jk].0 == k);
                        }
                    }
                    assert forall|k: u64| k != ino && old(self).contains_spec(k) implies
                        #[trigger] self.data_of(k) == old(self).data_of(k) by {
                        let jk = old(self).idx_of(k);
                        assert(old(self).entries@[jk].0 == k);
                        self.lemma_idx_of(k, jk);
                        old(self).lemma_idx_of(k, jk);
                    }
                }
            },
        }
    }

    /// Ensures a buffer exists for `ino`, creating an empty one if absent;
    /// returns its store index.
    pub fn ramfs_allocate_data(&mut self, ino: u64) -> (i: usize)
        requires
            old(self).wf(),
        ensures
            final(self).wf(),
            final(self).contains_spec(ino),
            i < final(self).entries@.len() && final(self).entries@[i as int].0 == ino,
            final(self).idx_of(ino) == i,
            final(self).data_of(ino) == if old(self).contains_spec(ino) {
                old(self).data_of(ino)
            } else {
                Seq::<u8>::empty()
            },
            forall|k: u64|
                k != ino ==> #[trigger] final(self).contains_spec(k) == old(self).contains_spec(k),
            forall|k: u64|
                k != ino && old(self).contains_spec(k)
                    ==> #[trigger] final(self).data_of(k) == old(self).data_of(k),
    {
        let found = self.find(ino);
        match found {
            Some(i) => {
                proof {
                    self.lemma_idx_of(ino, i as int);
                }
                i
            },
            None => {
                let i = self.entries.len();
                self.entries.push((ino, Vec::new()));
                proof {
                    self.lemma_idx_of(ino, i as int);
                    assert forall|k: u64| k != ino implies
                        #[trigger] self.contains_spec(k) == old(self).contains_spec(k) by {
                        if old(self).contains_spec(k) {
                            let jk = old(self).idx_of(k);
                            assert(self.entries@[jk].0 == k);
                        }
                        if self.contains_spec(k) {
                            let jk = self.idx_of(k);
                            assert(jk != i);
                            assert(old(self).entries@[jk].0 == k);
                        }
                    }
                    assert forall|k: u64| k != ino && old(self).contains_spec(k) implies
                        #[trigger] self.data_of(k) == old(self).data_of(k) by {
                        let jk = old(self).idx_of(k);
                        assert(old(self).entries@[jk].0 == k);
                        assert(self.entries@[jk].0 == k);
                        self.lemma_idx_of(k, jk);
                        old(self).lemma_idx_of(k, jk);
                    }
                }
                i
            },
        }
    }

    /// Removes the buffer for `ino`, reporting whether one existed.
    pub fn ramfs_try_remove_data(&mut self, ino: u64) -> (r: bool)
        requires
            old(self).wf(),
        ensures
            final(self).wf(),
            r == old(self).contains_spec(ino),
            !final(self).contains_spec(ino),
            forall|k: u64|
                k != ino ==> #[trigger] final(self).contains_spec(k) == old(self).contains_spec(k),
            forall|k: u64|
                k != ino && old(self).contains_spec(k)
                    ==> #[trigger] final(self).data_of(k) == old(self).data_of(k),
    {
        let found = self.find(ino);
        match found {
            Some(i) => {
                self.entries.swap_remove(i);
                proof {
                    let n = self.entries@.len() as int;
                    assert forall|k: u64| self.contains_spec(k) implies k != ino
                        && old(self).contains_spec(k) by {
                        let jk = self.idx_of(k);
                        if jk == i as int {
                            assert(old(self).entries@[n].0 == k);
                        } else {
                            assert(old(self).entries@[jk].0 == k);
                        }
                        if k == ino {
                            if jk == i as int {
                                old(self).lemma_idx_of(ino, i as int);
                                assert(old(self).entries@[n].0 != old(self).entries@[i as int].0
                                    || n == i as int);
                            } else {
                                assert(old(self).entries@[jk].0 == ino);
                                old(self).lemma_idx_of(ino, i as int);
                                old(self).lemma_idx_of(ino, jk);
                            }
                        }
                    }
                    assert forall|k: u64| k != ino && old(self).contains_spec(k) implies
                        #[trigger] self.data_of(k) == old(self).data_of(k)
                            && self.contains_spec(k) by {
                        let jk = old(self).idx_of(k);
                        assert(old(self).entries@[jk].0 == k);
                        old(self).lemma_idx_of(k, jk);
                        assert(jk != i as int) by {
                            if jk == i as int {
                                assert(old(self).entries@[i as int].0 == ino);
                            }
                        }
                        if jk == n {
                            // The old last entry moved into the vacated slot.
                            assert(self.entries@[i as int] == old(self).entries@[n]);
                            self.lemma_idx_of(k, i as int);
                        } else {
                            assert(self.entries@[jk].0 == k);
                            self.lemma_idx_of(k, jk);
                        }
                    }
                    assert forall|k: u64| k != ino implies #[trigger] self.contains_spec(k)
                        == old(self).contains_spec(k) by {
                        if self.contains_spec(k) {
                            assert(old(self).contains_spec(k));
                        }
                        if old(self).contains_spec(k) {
                            assert(self.data_of(k) == old(self).data_of(k));
                        }
                    }
                }
                true
            },
            None => false,
        }
    }

    /// Writes `buf` into the buffer for `ino` at byte offset `pos`, creating
    /// the buffer if absent and zero-filling any gap between its old end and
    /// `pos`.
    pub fn write_at(&mut self, ino: u64, pos: usize, buf: &[u8])
        requires
            old(self).wf(),
            pos + buf@.len() <= usize::MAX,
        ensures
            final(self).wf(),
            final(self).contains_spec(ino),
            final(self).data_of(ino) == write_bytes(stored_data(*old(self), ino), pos as nat, buf@),
            forall|k: u64|
                k != ino ==> #[trigger] final(self).contains_spec(k) == old(self).contains_spec(k),
            forall|k: u64|
                k != ino && old(self).contains_spec(k)
                    ==> #[trigger] final(self).data_of(k) == old(self).data_of(k),
    {
        let found = self.find(ino);
        let ghost olddata = stored_data(*old(self), ino);
        let old_len: usize = match found {
            Some(i) => {
                proof {
                    self.lemma_idx_of(ino, i as int);
                }
                self.entries[i].1.len()
            },
            None => 0,
        };
        let needed = pos + buf.len();
        let newlen = if needed > old_len {
            needed
        } else {
            old_len
        };
        assert(olddata.len() == old_len);
        assert(write_bytes(olddata, pos as nat, buf@).len() == newlen);
        let mut out: Vec<u8> = Vec::new();
        let mut m: usize = 0;
        while m < newlen
            invariant
                m <= newlen,
                *self == *old(self),
                pos + buf@.len() <= usize::MAX,
                needed == pos + buf@.len(),
                newlen == if needed > old_len { needed } else { old_len },
                olddata == stored_data(*old(self), ino),
                olddata.len() == old_len,
                match found {
                    Some(i) => i < self.entries@.len() && self.entries@[i as int].0 == ino
                        && self.entries@[i as int].1@ == olddata,
                    None => old_len == 0,
                },
                out@ == write_bytes(olddata, pos as nat, buf@).take(m as int),
            decreases newlen - m,
        {
            let b: u8 = if pos <= m && m < needed {
                buf[m - pos]
            } else if m < old_len {
                match found {
                    Some(i) => self.entries[i].1[m],
                    None => 0,
                }
            } else {
                0
            };
            out.push(b);
            proof {
                assert(out@ =~= write_bytes(olddata, pos as nat, buf@).take(m + 1));
            }
            m = m + 1;
        }
        proof {
            assert(out@ =~= write_bytes(olddata, pos as nat, buf@));
        }
        self.ramfs_set_data(ino, out);
    }

    /// Removes the buffer for `ino`, if any.
    pub fn ramfs_remove_data(&mut self, ino: u64)
        requires
            old(self).wf(),
        ensures
            final(self).wf(),
            !final(self).contains_spec(ino),
            forall|k: u64|
                k != ino ==> #[trigger] final(self).contains_spec(k) == old(self).contains_spec(k),
            forall|k: u64|
                k != ino && old(self).contains_spec(k)
                    ==> #[trigger] final(self).data_of(k) == old(self).data_of(k),
    {
        let _ = self.ramfs_try_remove_data(ino);
    }
}

} // verus!

verus! {

/// The file operation table every in-memory inode carries.
pub open spec fn spec_ramfs_file_operations() -> FileOperations {
    FileOperations {
        open: Some(FileOpImpl::Ramfs),
        release: Some(FileOpImpl::Ramfs),
        read: Some(FileOpImpl::Ramfs),
        write: Some(FileOpImpl::Ramfs),
    }
}

/// The file operation table every in-memory inode carries.
pub fn ramfs_file_operations() -> (r: FileOperations)
    ensures
        r == spec_ramfs_file_operations(),
{
    FileOperations {
        open: Some(FileOpImpl::Ramfs),
        release: Some(FileOpImpl::Ramfs),
        read: Some(FileOpImpl::Ramfs),
        write: Some(FileOpImpl::Ramfs),
    }
}

/// The inode operation table of in-memory directories: create, lookup, and
/// mkdir are implemented, nothing else is.
pub open spec fn spec_ramfs_inode_operations() -> InodeOperations {
    InodeOperations {
        lookup: Some(InodeOpImpl::Ramfs),
        create: Some(InodeOpImpl::Ramfs),
        mkdir: Some(InodeOpImpl::Ramfs),
        unlink: None,
        link: None,
        symlink: None,
        rmdir: None,
        rename: None,
    }
}

/// The inode operation table of in-memory directories.
pub fn ramfs_inode_operations() -> (r: InodeOperations)
    ensures
        r == spec_ramfs_inode_operations(),
{
    InodeOperations {
        lookup: Some(InodeOpImpl::Ramfs),
        create: Some(InodeOpImpl::Ramfs),
        mkdir: Some(InodeOpImpl::Ramfs),
        unlink: None,
        link: None,
        symlink: None,
        rmdir: None,
        rename: None,
    }
}

/// The superblock operation table: only the inode drop hook is implemented.
pub open spec fn spec_ramfs_super_operations() -> SuperOperations {
    SuperOperations {
        read_inode: None,
        write_inode: None,
        put_inode: None,
        put_super: None,
        write_super: None,
        statfs: None,
        remount_fs: None,
        drop_inode: Some(SuperOpImpl::Ramfs),
    }
}

/// The superblock operation table of the in-memory driver.
pub fn ramfs_super_operations() -> (r: SuperOperations)
    ensures
        r == spec_ramfs_super_operations(),
{
    SuperOperations {
        read_inode: None,
        write_inode: None,
        put_inode: None,
        put_super: None,
        write_super: None,
        statfs: None,
        remount_fs: None,
        drop_inode: Some(SuperOpImpl::Ramfs),
    }
}

/// Reads from the buffer of inode `ino` at `*pos` into the front of `buf`.
/// Returns the byte count transferred: `min(buf.len(), size - pos)` bytes
/// once the position is inside the file, 0 at or past end-of-file or when no
/// buffer backs the inode, and -1 when no inode carries `ino`.
pub fn ramfs_read(vfs: &Vfs, ino: u64, pos: &mut u64, buf: &mut Vec<u8>) -> (r: isize)
    requires
        vfs.wf(),
        old(buf)@.len() <= isize::MAX,
    ensures
        final(buf)@.len() == old(buf)@.len(),
        !vfs.ino_in_table(ino) ==> r == -1 && final(buf)@ == old(buf)@ && *final(pos) == *old(pos),
        vfs.ino_in_table(ino) ==> {
            let size = vfs.inode_at(ino).i_size;
            let p = *old(pos);
            &&& p >= size ==> r == 0 && final(buf)@ == old(buf)@ && *final(pos) == *old(pos)
            &&& p < size && !vfs.ramfs_data.contains_spec(ino) ==> r == 0
                && final(buf)@ == old(buf)@ && *final(pos) == *old(pos)
            &&& p < size && vfs.ramfs_data.contains_spec(ino) ==> {
                let n = if old(buf)@.len() <= size - p {
                    old(buf)@.len() as int
                } else {
                    size - p
                };
                &&& r == n
                &&& final(buf)@ == vfs.ramfs_data.data_of(ino).subrange(p as int, p + n)
                    + old(buf)@.skip(n)
                &&& *final(pos) == p + n
            }
        },
{
    let found = vfs.find_inode(ino);
    let ii = match found {
        Some(ii) => ii,
        None => {
            return -1;
        },
    };
    proof {
        vfs.lemma_inode_idx(ino, ii as int);
    }
    let current_pos: u64 = *pos;
    let file_size: u64 = vfs.inodes[ii].i_size;
    if current_pos >= file_size {
        return 0;
    }
    let si = match vfs.ramfs_data.find(ino) {
        Some(si) => si,
        None => {
            return 0;
        },
    };
    proof {
        vfs.ramfs_data.lemma_idx_of(ino, si as int);
        assert(vfs.inodes@[ii as int].i_size <= vfs.ramfs_data.data_of(ino).len());
    }
    // The backing buffer covers the whole recorded size, so every index below
    // `file_size` is in bounds and fits a usize.
    let ghost data = vfs.ramfs_data.data_of(ino);
    let dlen: usize = vfs.ramfs_data.entries[si].1.len();
    assert(dlen == data.len());
    assert(file_size <= dlen as u64);
    let start: usize = current_pos as usize;
    let avail: u64 = file_size - current_pos;
    let count: usize = buf.len();
    let to_read: usize = if avail < count as u64 {
        avail as usize
    } else {
        count
    };
    let mut j: usize = 0;
    while j < to_read
        invariant
            j <= to_read,
            si < vfs.ramfs_data.entries@.len(),
            vfs.ramfs_data.entries@[si as int].0 == ino,
            vfs.ramfs_data.entries@[si as int].1@ == data,
            start + to_read <= data.len(),
            start + to_read <= usize::MAX,
            to_read <= buf@.len(),
            buf@.len() == old(buf)@.len(),
            forall|t: int| 0 <= t < j ==> buf@[t] == data[start + t],
            forall|t: int| j <= t < buf@.len() ==> buf@[t] == old(buf)@[t],
        decreases to_read - j,
    {
        let b: u8 = vfs.ramfs_data.entries[si].1[start + j];
        buf[j] = b;
        j = j + 1;
    }
    *pos = current_pos + to_read as u64;
    proof {
        assert(buf@ =~= data.subrange(start as int, start + to_read)
            + old(buf)@.skip(to_read as int));
    }
    to_read as isize
}

/// Writes `buf` to the buffer of inode `ino` at `*pos`, growing the buffer
/// and the recorded size as needed. Returns `buf.len()`, or -1 when no inode
/// carries `ino`.
pub fn ramfs_write(vfs: &mut Vfs, ino: u64, pos: &mut u64, buf: &[u8]) -> (r: isize)
    requires
        old(vfs).wf(),
        *old(pos) + buf@.len() <= usize::MAX,
        buf@.len() <= isize::MAX,
    ensures
        final(vfs).wf(),
        !old(vfs).ino_in_table(ino) ==> r == -1 && *final(vfs) == *old(vfs)
            && *final(pos) == *old(pos),
        old(vfs).ino_in_table(ino) ==> {
            let idx = old(vfs).inode_idx(ino);
            let oldino = old(vfs).inodes@[idx];
            let newsize = if *old(pos) + buf@.len() > oldino.i_size {
                (*old(pos) + buf@.len()) as u64
            } else {
                oldino.i_size
            };
            &&& r == buf@.len()
            &&& *final(pos) == *old(pos) + buf@.len()
            &&& old(vfs).same_tree(*final(vfs))
            &&& final(vfs).inodes@ == old(vfs).inodes@.update(
                idx,
                Inode { i_size: newsize, ..oldino },
            )
            &&& final(vfs).ramfs_data.contains_spec(ino)
            &&& final(vfs).ramfs_data.data_of(ino) == write_bytes(
                stored_data(old(vfs).ramfs_data, ino),
                *old(pos) as nat,
                buf@,
            )
            &&& forall|k: u64|
                k != ino ==> #[trigger] final(vfs).ramfs_data.contains_spec(k)
                    == old(vfs).ramfs_data.contains_spec(k)
            &&& forall|k: u64|
                k != ino && old(vfs).ramfs_data.contains_spec(k)
                    ==> #[trigger] final(vfs).ramfs_data.data_of(k)
                        == old(vfs).ramfs_data.data_of(k)
        },
{
    let found = vfs.find_inode(ino);
    let ii = match found {
        Some(ii) => ii,
        None => {
            return -1;
        },
    };
    proof {
        vfs.lemma_inode_idx(ino, ii as int);
    }
    let current_pos: usize = *pos as usize;
    vfs.ramfs_data.write_at(ino, current_pos, buf);
    let new_end: u64 = (current_pos + buf.len()) as u64;
    let ind = &mut vfs.inodes[ii];
    if new_end > ind.i_size {
        ind.i_size = new_end;
    }
    *pos = new_end;
    proof {
        let pre = *old(vfs);
        assert forall|i: int| 0 <= i < vfs.dentries@.len() implies #[trigger] vfs.dentry_wf(i) by {
            assert(pre.dentry_wf(i));
            match vfs.dentries@[i].d_inode {
                Some(ino2) => {
                    let w = choose|w: int|
                        0 <= w < pre.inodes@.len() && pre.inodes@[w].i_ino == ino2;
                    assert(vfs.inodes@[w].i_ino == ino2);
                },
                None => {},
            }
        }
        assert forall|i: int| 0 <= i < vfs.inodes@.len() implies {
            let ind2 = #[trigger] vfs.inodes@[i];
            if vfs.ramfs_data.contains_spec(ind2.i_ino) {
                ind2.i_size <= vfs.ramfs_data.data_of(ind2.i_ino).len()
            } else {
                ind2.i_size == 0
            }
        } by {
            assert(pre.data_wf());
            if i == ii as int {
                assert(vfs.ramfs_data.data_of(ino) == write_bytes(
                    stored_data(pre.ramfs_data, ino),
                    current_pos as nat,
                    buf@,
                ));
            } else {
                assert(pre.inodes@[i] == vfs.inodes@[i]);
                assert(vfs.inodes@[i].i_ino != ino);
            }
        }
    }
    buf.len() as isize
}

/// Opens inode `ino`: makes sure a backing buffer exists, creating an empty
/// one if absent. Returns 0, or -1 when no inode carries `ino`.
pub fn ramfs_open(vfs: &mut Vfs, ino: u64) -> (r: isize)
    requires
        old(vfs).wf(),
    ensures
        final(vfs).wf(),
        !old(vfs).ino_in_table(ino) ==> r == -1 && *final(vfs) == *old(vfs),
        old(vfs).ino_in_table(ino) ==> {
            &&& r == 0
            &&& old(vfs).same_tree(*final(vfs))
            &&& final(vfs).inodes@ == old(vfs).inodes@
            &&& final(vfs).ramfs_data.contains_spec(ino)
            &&& final(vfs).ramfs_data.data_of(ino) == stored_data(old(vfs).ramfs_data, ino)
            &&& forall|k: u64|
                k != ino ==> #[trigger] final(vfs).ramfs_data.contains_spec(k)
                    == old(vfs).ramfs_data.contains_spec(k)
            &&& forall|k: u64|
                k != ino && old(vfs).ramfs_data.contains_spec(k)
                    ==> #[trigger] final(vfs).ramfs_data.data_of(k)
                        == old(vfs).ramfs_data.data_of(k)
        },
{
    let found = vfs.find_inode(ino);
    let ii = match found {
        Some(ii) => ii,
        None => {
            return -1;
        },
    };
    proof {
        vfs.lemma_inode_idx(ino, ii as int);
    }
    let _ = vfs.ramfs_data.ramfs_allocate_data(ino);
    proof {
        let pre = *old(vfs);
        assert forall|i: int| 0 <= i < vfs.inodes@.len() implies {
            let ind2 = #[trigger] vfs.inodes@[i];
            if vfs.ramfs_data.contains_spec(ind2.i_ino) {
                ind2.i_size <= vfs.ramfs_data.data_of(ind2.i_ino).len()
            } else {
                ind2.i_size == 0
            }
        } by {
            assert(pre.data_wf());
            if vfs.inodes@[i].i_ino == ino {
                pre.lemma_inode_idx(ino, i);
            }
        }
        assert forall|i: int| 0 <= i < vfs.dentries@.len() implies #[trigger] vfs.dentry_wf(i) by {
            assert(pre.dentry_wf(i));
        }
    }
    0
}

/// Releasing an in-memory file keeps its buffer; nothing to do.
pub fn ramfs_release(_vfs: &Vfs, _ino: u64) -> (r: isize)
    ensures
        r == 0,
{
    0
}

/// The driver-specific lookup: the authoritative children map lives in the
/// VFS layer, so this only reports whether the directory inode exists.
pub fn ramfs_lookup(vfs: &Vfs, dir_ino: u64) -> (r: isize)
    ensures
        r == if vfs.ino_in_table(dir_ino) { 0isize } else { -1isize },
{
    match vfs.find_inode(dir_ino) {
        Some(_) => 0,
        None => -1,
    }
}

} // verus!

verus! {

/// Creates a fresh inode under directory `dir_ino`: a new ino joins the
/// table carrying the given mode and ownership, the directory's inode
/// operations, and the driver's file operations. Returns `None` when the
/// directory inode is missing or every ino is taken.
pub fn ramfs_create(vfs: &mut Vfs, dir_ino: u64, mode: Mode, uid: Uid, gid: Gid) -> (r: Option<
    u64,
>)
    requires
        old(vfs).wf(),
    ensures
        final(vfs).wf(),
        match r {
            Some(ino) => {
                &&& old(vfs).ino_in_table(dir_ino)
                &&& allocates_ino(*old(vfs), *final(vfs), ino)
                &&& ({
                    let last = final(vfs).inodes@.last();
                    &&& last.i_mode == mode
                    &&& last.i_uid == uid
                    &&& last.i_gid == gid
                    &&& last.i_size == 0
                    &&& last.i_count == 1
                    &&& last.i_sb == old(vfs).inode_at(dir_ino).i_sb
                    &&& last.file_operations == Some(spec_ramfs_file_operations())
                    &&& last.inode_operations == old(vfs).inode_at(dir_ino).inode_operations
                    &&& last.i_dentry@.len() == 0
                })
                &&& final(vfs).next_ino == ino
                &&& final(vfs).dentries@ == old(vfs).dentries@
                &&& final(vfs).super_blocks@ == old(vfs).super_blocks@
                &&& final(vfs).filesystems@ == old(vfs).filesystems@
                &&& final(vfs).root_dentry == old(vfs).root_dentry
                &&& final(vfs).ramfs_data == old(vfs).ramfs_data
            },
            None => {
                &&& *final(vfs) == *old(vfs)
                &&& (!old(vfs).ino_in_table(dir_ino) || forall|v: u64|
                    2 <= v < MAX_INODES ==> old(vfs).ino_in_table(v))
            },
        },
{
    let dii = match vfs.find_inode(dir_ino) {
        Some(dii) => dii,
        None => {
            return None;
        },
    };
    proof {
        vfs.lemma_inode_idx(dir_ino, dii as int);
    }
    let iops = vfs.inodes[dii].inode_operations;
    let sb = vfs.inodes[dii].i_sb;
    let ino = match allocate_empty_inode(vfs, mode, uid, gid, sb) {
        Some(ino) => ino,
        None => {
            return None;
        },
    };
    let n = vfs.inodes.len();
    let ind = &mut vfs.inodes[n - 1];
    ind.file_operations = Some(ramfs_file_operations());
    ind.inode_operations = iops;
    proof {
        let pre = *old(vfs);
        assert forall|i: int| 0 <= i < vfs.dentries@.len() implies #[trigger] vfs.dentry_wf(i) by {
            assert(pre.dentry_wf(i));
            match vfs.dentries@[i].d_inode {
                Some(ino2) => {
                    let w = choose|w: int|
                        0 <= w < pre.inodes@.len() && pre.inodes@[w].i_ino == ino2;
                    assert(vfs.inodes@[w].i_ino == ino2);
                },
                None => {},
            }
        }
        assert forall|i: int| 0 <= i < vfs.inodes@.len() implies {
            let ind2 = #[trigger] vfs.inodes@[i];
            if vfs.ramfs_data.contains_spec(ind2.i_ino) {
                ind2.i_size <= vfs.ramfs_data.data_of(ind2.i_ino).len()
            } else {
                ind2.i_size == 0
            }
        } by {
            assert(pre.data_wf());
            if i < n - 1 {
                assert(pre.inodes@[i] == vfs.inodes@[i]);
            } else {
                assert(vfs.inodes@[i].i_size == 0);
            }
        }
    }
    Some(ino)
}

/// Creates a fresh directory inode under `dir_ino`: like `ramfs_create`, but
/// the directory file-type bit is forced on and ownership is inherited from
/// the parent directory.
pub fn ramfs_mkdir(vfs: &mut Vfs, dir_ino: u64, mode: Mode) -> (r: Option<u64>)
    requires
        old(vfs).wf(),
    ensures
        final(vfs).wf(),
        match r {
            Some(ino) => {
                &&& old(vfs).ino_in_table(dir_ino)
                &&& allocates_ino(*old(vfs), *final(vfs), ino)
                &&& ({
                    let last = final(vfs).inodes@.last();
                    let dir = old(vfs).inode_at(dir_ino);
                    &&& last.i_mode == Mode(mode.0 | 0o40000)
                    &&& last.i_uid == dir.i_uid
                    &&& last.i_gid == dir.i_gid
                    &&& last.i_size == 0
                    &&& last.i_count == 1
                    &&& last.i_sb == dir.i_sb
                    &&& last.file_operations == Some(spec_ramfs_file_operations())
                    &&& last.inode_operations == dir.inode_operations
                    &&& last.i_dentry@.len() == 0
                })
                &&& final(vfs).next_ino == ino
                &&& final(vfs).dentries@ == old(vfs).dentries@
                &&& final(vfs).super_blocks@ == old(vfs).super_blocks@
                &&& final(vfs).filesystems@ == old(vfs).filesystems@
                &&& final(vfs).root_dentry == old(vfs).root_dentry
                &&& final(vfs).ramfs_data == old(vfs).ramfs_data
            },
            None => {
                &&& *final(vfs) == *old(vfs)
                &&& (!old(vfs).ino_in_table(dir_ino) || forall|v: u64|
                    2 <= v < MAX_INODES ==> old(vfs).ino_in_table(v))
            },
        },
{
    let dii = match vfs.find_inode(dir_ino) {
        Some(dii) => dii,
        None => {
            return None;
        },
    };
    proof {
        vfs.lemma_inode_idx(dir_ino, dii as int);
    }
    let uid = vfs.inodes[dii].i_uid;
    let gid = vfs.inodes[dii].i_gid;
    let dir_mode = Mode(mode.0 | 0o40000);
    ramfs_create(vfs, dir_ino, dir_mode, uid, gid)
}

/// The superblock drop hook: removes the inode's backing buffer and takes
/// the inode out of the global table. Callable only once nothing names the
/// inode any more.
pub fn ramfs_drop_inode(vfs: &mut Vfs, ino: u64)
    requires
        old(vfs).wf(),
        forall|i: int|
            0 <= i < old(vfs).dentries@.len() ==> (#[trigger] old(vfs).dentries@[i]).d_inode
                != Some(ino),
    ensures
        final(vfs).wf(),
        !final(vfs).ino_in_table(ino),
        !final(vfs).ramfs_data.contains_spec(ino),
        old(vfs).same_tree(*final(vfs)),
        forall|k: u64|
            k != ino ==> #[trigger] final(vfs).ino_in_table(k) == old(vfs).ino_in_table(k),
        forall|k: u64|
            k != ino && old(vfs).ino_in_table(k)
                ==> #[trigger] final(vfs).inode_at(k) == old(vfs).inode_at(k),
        forall|k: u64|
            k != ino ==> #[trigger] final(vfs).ramfs_data.contains_spec(k)
                == old(vfs).ramfs_data.contains_spec(k),
        forall|k: u64|
            k != ino && old(vfs).ramfs_data.contains_spec(k)
                ==> #[trigger] final(vfs).ramfs_data.data_of(k)
                    == old(vfs).ramfs_data.data_of(k),
{
    vfs.ramfs_data.ramfs_remove_data(ino);
    let found = vfs.find_inode(ino);
    match found {
        None => {
            proof {
                assert forall|i: int| 0 <= i < vfs.dentries@.len() implies #[trigger] vfs
                    .dentry_wf(i) by {
                    assert(old(vfs).dentry_wf(i));
                    match vfs.dentries@[i].d_inode {
                        Some(ino2) => {
                            let w = choose|w: int|
                                0 <= w < old(vfs).inodes@.len() && old(vfs).inodes@[w].i_ino
                                    == ino2;
                            assert(vfs.inodes@[w].i_ino == ino2);
                        },
                        None => {},
                    }
                }
                assert forall|i: int| 0 <= i < vfs.inodes@.len() implies {
                    let ind2 = #[trigger] vfs.inodes@[i];
                    if vfs.ramfs_data.contains_spec(ind2.i_ino) {
                        ind2.i_size <= vfs.ramfs_data.data_of(ind2.i_ino).len()
                    } else {
                        ind2.i_size == 0
                    }
                } by {
                    assert(old(vfs).data_wf());
                    assert(vfs.inodes@[i].i_ino != ino);
                }
            }
        },
        Some(ii) => {
            proof {
                vfs.lemma_inode_idx(ino, ii as int);
            }
            let _ = vfs.inodes.swap_remove(ii);
            proof {
                let pre = *old(vfs);
                let n = vfs.inodes@.len() as int;
                // Uniqueness survives the swap-remove: every new slot holds
                // an old entry, and distinct slots hold distinct old entries.
                assert forall|i: int, j: int| 0 <= i < j < n implies vfs.inodes@[i].i_ino
                    != vfs.inodes@[j].i_ino by {
                    if i == ii as int {
                        assert(vfs.inodes@[i] == pre.inodes@[n]);
                        assert(vfs.inodes@[j] == pre.inodes@[j]);
                    } else if j == ii as int {
                        assert(vfs.inodes@[j] == pre.inodes@[n]);
                        assert(vfs.inodes@[i] == pre.inodes@[i]);
                    } else {
                        assert(vfs.inodes@[i] == pre.inodes@[i]);
                        assert(vfs.inodes@[j] == pre.inodes@[j]);
                    }
                }
                assert forall|k: u64| k != ino && pre.ino_in_table(k) implies
                    #[trigger] vfs.ino_in_table(k) && vfs.inode_at(k) == pre.inode_at(k) by {
                    let jk = pre.inode_idx(k);
                    pre.lemma_inode_idx(k, jk);
                    assert(jk != ii as int) by {
                        if jk == ii as int {
                            assert(pre.inodes@[ii as int].i_ino == ino);
                        }
                    }
                    if jk == n {
                        assert(vfs.inodes@[ii as int] == pre.inodes@[n]);
                        vfs.lemma_inode_idx(k, ii as int);
                    } else {
                        assert(vfs.inodes@[jk] == pre.inodes@[jk]);
                        vfs.lemma_inode_idx(k, jk);
                    }
                }
                assert forall|k: u64| k != ino && pre.ino_in_table(k) implies #[trigger] vfs
                    .inode_at(k) == pre.inode_at(k) by {
                    assert(vfs.ino_in_table(k));
                }
                assert forall|k: u64| vfs.ino_in_table(k) implies k != ino
                    && pre.ino_in_table(k) by {
                    let jk = vfs.inode_idx(k);
                    if jk == ii as int {
                        assert(pre.inodes@[n].i_ino == k);
                        if k == ino {
                            assert(pre.inodes@[ii as int].i_ino == ino);
                            assert(n != ii as int);
                        }
                    } else {
                        assert(pre.inodes@[jk].i_ino == k);
                        if k == ino {
                            pre.lemma_inode_idx(ino, ii as int);
                            pre.lemma_inode_idx(ino, jk);
                        }
                    }
                }
                assert forall|i: int| 0 <= i < vfs.dentries@.len() implies #[trigger] vfs
                    .dentry_wf(i) by {
                    assert(pre.dentry_wf(i));
                    match vfs.dentries@[i].d_inode {
                        Some(ino2) => {
                            assert(ino2 != ino);
                            assert(pre.ino_in_table(ino2));
                            assert(vfs.ino_in_table(ino2));
                        },
                        None => {},
                    }
                }
                assert forall|i: int| 0 <= i < vfs.inodes@.len() implies {
                    let ind2 = #[trigger] vfs.inodes@[i];
                    if vfs.ramfs_data.contains_spec(ind2.i_ino) {
                        ind2.i_size <= vfs.ramfs_data.data_of(ind2.i_ino).len()
                    } else {
                        ind2.i_size == 0
                    }
                } by {
                    assert(pre.data_wf());
                    let oi: int = if i == ii as int { n } else { i };
                    assert(vfs.inodes@[i] == pre.inodes@[oi]);
                    assert(vfs.inodes@[i].i_ino != ino);
                }
            }
        },
    }
}

/// The `kill_sb` hook of the in-memory driver: nothing to tear down.
pub fn ramfs_kill_sb(sb: &mut SuperBlock) -> (r: i32)
    ensures
        r == 0,
        *final(sb) == *old(sb),
{
    0
}

} // verus!

verus! {

/// The in-memory driver's mount routine: pushes a fresh superblock, installs
/// the root inode (ino 1, a directory readable and writable by everyone),
/// and pushes a parentless root dentry named after the mount point. Returns
/// the root dentry's arena index.
pub fn ramfs_mount(vfs: &mut Vfs, fs_index: usize, dev: u32, mount_point: &[u8]) -> (r: usize)
    requires
        old(vfs).wf(),
        fs_index < old(vfs).filesystems@.len(),
    ensures
        final(vfs).wf(),
        r == old(vfs).dentries@.len(),
        final(vfs).dentries@.len() == old(vfs).dentries@.len() + 1,
        forall|i: int|
            0 <= i < old(vfs).dentries@.len() ==> final(vfs).dentries@[i] == old(vfs).dentries@[i],
        ({
            let d = final(vfs).dentries@.last();
            &&& d.d_name@ == mount_point@
            &&& d.d_inode == Some(1u64)
            &&& d.d_parent is None
            &&& d.d_subdirs@.len() == 0
            &&& d.d_sb == Some(old(vfs).super_blocks@.len() as usize)
            &&& d.d_op is None
        }),
        final(vfs).super_blocks@ == old(vfs).super_blocks@.push(
            SuperBlock {
                s_dev: Dev(dev),
                s_root: Some(r),
                s_op: old(vfs).filesystems@[fs_index as int].super_operations,
                s_fs: Some(fs_index),
            },
        ),
        final(vfs).ino_in_table(1),
        ({
            let ri = final(vfs).inode_at(1);
            &&& ri.i_mode == Mode(0o40777)
            &&& ri.i_uid == Uid(0)
            &&& ri.i_gid == Gid(0)
            &&& ri.i_size == 0
            &&& ri.i_count == 1
            &&& ri.i_sb == Some(old(vfs).super_blocks@.len() as usize)
            &&& ri.file_operations == Some(spec_ramfs_file_operations())
            &&& ri.inode_operations == Some(spec_ramfs_inode_operations())
            &&& ri.i_dentry@ == seq![r]
        }),
        forall|k: u64|
            k != 1 ==> #[trigger] final(vfs).ino_in_table(k) == old(vfs).ino_in_table(k),
        forall|k: u64|
            k != 1 && old(vfs).ino_in_table(k)
                ==> #[trigger] final(vfs).inode_at(k) == old(vfs).inode_at(k),
        final(vfs).filesystems@ == old(vfs).filesystems@,
        final(vfs).root_dentry == old(vfs).root_dentry,
        final(vfs).next_ino == old(vfs).next_ino,
        final(vfs).ramfs_data == old(vfs).ramfs_data,
{
    let sb_index = vfs.super_blocks.len();
    let sop = vfs.filesystems[fs_index].super_operations;
    vfs.super_blocks.push(
        SuperBlock { s_dev: Dev(dev), s_root: None, s_op: sop, s_fs: Some(fs_index) },
    );
    let d_id = vfs.dentries.len();
    let mut root_links: Vec<usize> = Vec::new();
    root_links.push(d_id);
    let root_inode = Inode {
        i_ino: 1,
        i_count: 1,
        i_mode: Mode(0o40777),
        i_uid: Uid(0),
        i_gid: Gid(0),
        i_size: 0,
        i_sb: Some(sb_index),
        file_operations: Some(ramfs_file_operations()),
        inode_operations: Some(ramfs_inode_operations()),
        i_dentry: root_links,
    };
    let ghost pre = *old(vfs);
    let found = vfs.find_inode(1);
    match found {
        Some(ii) => {
            proof {
                pre.lemma_inode_idx(1, ii as int);
            }
            vfs.inodes[ii] = root_inode;
        },
        None => {
            vfs.inodes.push(root_inode);
        },
    }
    let name = vstd::slice::slice_to_vec(mount_point);
    vfs.dentries.push(
        Dentry {
            d_name: name,
            d_inode: Some(1),
            d_sb: Some(sb_index),
            d_op: None,
            d_parent: None,
            d_subdirs: Vec::new(),
        },
    );
    let sbr = &mut vfs.super_blocks[sb_index];
    sbr.s_root = Some(d_id);
    proof {
        let n = vfs.inodes@.len() as int;
        let rii: int = match found {
            Some(ii) => ii as int,
            None => n - 1,
        };
        assert(vfs.inodes@[rii].i_ino == 1);
        vfs.lemma_inode_idx(1, rii);
        assert(vfs.inode_at(1).i_dentry@ =~= seq![d_id]);
        assert(vfs.super_blocks@ =~= pre.super_blocks@.push(
            SuperBlock {
                s_dev: Dev(dev),
                s_root: Some(d_id),
                s_op: pre.filesystems@[fs_index as int].super_operations,
                s_fs: Some(fs_index),
            },
        ));
        assert forall|k: u64| k != 1 && pre.ino_in_table(k) implies #[trigger] vfs.ino_in_table(k)
            && vfs.inode_at(k) == pre.inode_at(k) by {
            let jk = pre.inode_idx(k);
            pre.lemma_inode_idx(k, jk);
            assert(jk != rii) by {
                if jk == rii {
                    assert(pre.inodes@[rii].i_ino == k);
                    match found {
                        Some(ii) => {
                            assert(pre.inodes@[rii].i_ino == 1);
                        },
                        None => {},
                    }
                }
            }
            assert(vfs.inodes@[jk] == pre.inodes@[jk]);
            vfs.lemma_inode_idx(k, jk);
        }
        assert forall|k: u64| k != 1 && pre.ino_in_table(k) implies #[trigger] vfs.inode_at(k)
            == pre.inode_at(k) by {
            assert(vfs.ino_in_table(k));
        }
        assert forall|k: u64| k != 1 && vfs.ino_in_table(k) implies pre.ino_in_table(k) by {
            let jk = vfs.inode_idx(k);
            assert(vfs.inodes@[jk].i_ino == k);
            assert(jk != rii);
            assert(pre.inodes@[jk].i_ino == k);
        }
        assert forall|i: int, j: int| 0 <= i < j < n implies vfs.inodes@[i].i_ino != vfs
            .inodes@[j].i_ino by {
            match found {
                Some(ii) => {
                    assert(pre.inodes@[i].i_ino == if i == rii { 1u64 } else {
                        vfs.inodes@[i].i_ino
                    });
                    assert(pre.inodes@[j].i_ino == if j == rii { 1u64 } else {
                        vfs.inodes@[j].i_ino
                    });
                },
                None => {
                    if j == n - 1 {
                        assert(!pre.ino_in_table(1));
                        assert(pre.inodes@[i].i_ino != 1);
                    }
                },
            }
        }
        assert forall|i: int| 0 <= i < vfs.dentries@.len() implies #[trigger] vfs.dentry_wf(
            i,
        ) by {
            if i < vfs.dentries@.len() - 1 {
                assert(pre.dentry_wf(i));
                assert(vfs.dentries@[i] == pre.dentries@[i]);
                match vfs.dentries@[i].d_inode {
                    Some(ino2) => {
                        if ino2 == 1 {
                            assert(vfs.ino_in_table(1));
                        } else {
                            assert(pre.ino_in_table(ino2));
                            assert(vfs.ino_in_table(ino2));
                        }
                    },
                    None => {},
                }
                assert forall|k: int| 0 <= k < vfs.dentries@[i].d_subdirs@.len() implies {
                    let c = #[trigger] vfs.dentries@[i].d_subdirs@[k];
                    &&& i < c < vfs.dentries@.len()
                    &&& vfs.dentries@[c as int].d_parent == Some(i as usize)
                } by {
                    let c = vfs.dentries@[i].d_subdirs@[k];
                    assert(c < pre.dentries@.len());
                    assert(vfs.dentries@[c as int] == pre.dentries@[c as int]);
                }
            } else {
                // The new root dentry: no parent, no children.
                assert(vfs.ino_in_table(1));
            }
        }
        assert forall|i: int| 0 <= i < vfs.inodes@.len() implies {
            let ind2 = #[trigger] vfs.inodes@[i];
            if vfs.ramfs_data.contains_spec(ind2.i_ino) {
                ind2.i_size <= vfs.ramfs_data.data_of(ind2.i_ino).len()
            } else {
                ind2.i_size == 0
            }
        } by {
            assert(pre.data_wf());
            if i == rii {
                assert(vfs.inodes@[i].i_size == 0);
            } else {
                assert(vfs.inodes@[i] == pre.inodes@[i]);
            }
        }
    }
    d_id
}

/// Registers the in-memory filesystem driver under the name "ramfs".
pub fn init_ramfs(vfs: &mut Vfs)
    requires
        old(vfs).wf(),
    ensures
        final(vfs).wf(),
        final(vfs).filesystems@.len() == old(vfs).filesystems@.len() + 1,
        forall|i: int|
            0 <= i < old(vfs).filesystems@.len() ==> final(vfs).filesystems@[i] == old(
                vfs,
            ).filesystems@[i],
        ({
            let f = final(vfs).filesystems@.last();
            &&& f.name@ == ramfs_name()
            &&& f.mount == Some(MountImpl::Ramfs)
            &&& f.kill_sb == Some(KillSbImpl::Ramfs)
            &&& f.super_operations == Some(spec_ramfs_super_operations())
            &&& f.fs_supers@.len() == 0
        }),
        final(vfs).super_blocks@ == old(vfs).super_blocks@,
        final(vfs).inodes@ == old(vfs).inodes@,
        final(vfs).dentries@ == old(vfs).dentries@,
        final(vfs).root_dentry == old(vfs).root_dentry,
        final(vfs).next_ino == old(vfs).next_ino,
        final(vfs).ramfs_data == old(vfs).ramfs_data,
{
    let mut name: Vec<u8> = Vec::new();
    name.push(114u8);
    name.push(97u8);
    name.push(109u8);
    name.push(102u8);
    name.push(115u8);
    proof {
        assert(name@ =~= ramfs_name());
    }
    let fs = Filesystem {
        name,
        mount: Some(MountImpl::Ramfs),
        kill_sb: Some(KillSbImpl::Ramfs),
        super_operations: Some(ramfs_super_operations()),
        fs_supers: Vec::new(),
    };
    vfs.filesystems.push(fs);
    proof {
        let pre = *old(vfs);
        assert forall|i: int| 0 <= i < vfs.dentries@.len() implies #[trigger] vfs.dentry_wf(
            i,
        ) by {
            assert(pre.dentry_wf(i));
        }
        assert forall|i: int| 0 <= i < vfs.inodes@.len() implies {
            let ind2 = #[trigger] vfs.inodes@[i];
            if vfs.ramfs_data.contains_spec(ind2.i_ino) {
                ind2.i_size <= vfs.ramfs_data.data_of(ind2.i_ino).len()
            } else {
                ind2.i_size == 0
            }
        } by {
            assert(pre.data_wf());
        }
    }
}

/// The registered name of the in-memory driver: "ramfs".
pub open spec fn ramfs_name() -> Seq<u8> {
    seq![114u8, 97u8, 109u8, 102u8, 115u8]
}

} // verus!

verus! {

/// Total byte count of a list of write buffers.
pub open spec fn total_len(bufs: Seq<Seq<u8>>) -> nat
    decreases bufs.len(),
{
    if bufs.len() == 0 {
        0
    } else {
        bufs.first().len() + total_len(bufs.drop_first())
    }
}

/// The buffer contents after a chain of writes, each starting where the
/// previous one ended.
pub open spec fn apply_writes(data: Seq<u8>, bufs: Seq<Seq<u8>>, pos: nat) -> Seq<u8>
    decreases bufs.len(),
{
    if bufs.len() == 0 {
        data
    } else {
        apply_writes(write_bytes(data, pos, bufs.first()), bufs.drop_first(), pos
            + bufs.first().len())
    }
}

/// The recorded size after the same chain of writes: each write raises it to
/// at least its own end.
pub open spec fn size_after_writes(size: nat, bufs: Seq<Seq<u8>>, pos: nat) -> nat
    decreases bufs.len(),
{
    if bufs.len() == 0 {
        size
    } else {
        let end = pos + bufs.first().len();
        let ns = if end > size {
            end
        } else {
            size
        };
        size_after_writes(ns, bufs.drop_first(), end)
    }
}

proof fn lemma_apply_writes_general(data: Seq<u8>, bufs: Seq<Seq<u8>>, pos: nat)
    ensures
        apply_writes(data, bufs, pos).len() >= data.len(),
        bufs.len() > 0 ==> apply_writes(data, bufs, pos).len() >= pos + total_len(bufs),
        forall|i: int|
            0 <= i < pos && i < data.len() ==> apply_writes(data, bufs, pos)[i] == data[i],
        bufs.len() > 0 ==> apply_writes(data, bufs, pos).subrange(
            pos as int,
            (pos + total_len(bufs)) as int,
        ) == bufs.flatten(),
    decreases bufs.len(),
{
    if bufs.len() == 0 {
    } else {
        let b0 = bufs.first();
        let data1 = write_bytes(data, pos, b0);
        let rest = bufs.drop_first();
        let pos1 = pos + b0.len();
        lemma_apply_writes_general(data1, rest, pos1);
        let result = apply_writes(data, bufs, pos);
        assert(result == apply_writes(data1, rest, pos1));
        assert(data1.len() >= data.len());
        assert(data1.len() >= pos1);
        assert forall|i: int| 0 <= i < pos && i < data.len() implies result[i] == data[i] by {
            assert(data1[i] == data[i]);
            assert(result[i] == data1[i]);
        }
        if rest.len() == 0 {
            assert(result == data1);
            assert(total_len(bufs) == b0.len() + total_len(rest));
            assert(total_len(rest) == 0);
            assert(rest.flatten() =~= Seq::<u8>::empty());
            assert(bufs.flatten() == b0 + rest.flatten());
            assert(result.subrange(pos as int, (pos + b0.len()) as int) =~= b0 + rest.flatten());
        } else {
            assert(result.len() >= pos1 + total_len(rest));
            assert forall|i: int| pos <= i < pos1 implies result[i] == b0[i - pos] by {
                assert(data1[i] == b0[i - pos]);
                assert(result[i] == data1[i]);
            }
            assert(result.subrange(pos1 as int, (pos1 + total_len(rest)) as int)
                == rest.flatten());
            assert(bufs.flatten() == b0 + rest.flatten());
            assert(total_len(bufs) == b0.len() + total_len(rest));
            assert forall|i: int| 0 <= i < total_len(bufs) implies result[pos + i] == (b0
                + rest.flatten())[i] by {
                if i < b0.len() {
                    assert(result[pos + i] == b0[i]);
                } else {
                    assert(rest.flatten().len() == total_len(rest)) by {
                        assert(result.subrange(pos1 as int, (pos1 + total_len(rest)) as int).len()
                            == total_len(rest));
                    }
                    assert(result.subrange(pos1 as int, (pos1 + total_len(rest)) as int)[i
                        - b0.len()] == rest.flatten()[i - b0.len()]);
                    assert(result[pos1 + (i - b0.len())] == rest.flatten()[i - b0.len()]);
                }
            }
            assert(result.subrange(pos as int, (pos + total_len(bufs)) as int) =~= b0
                + rest.flatten());
        }
    }
}

proof fn lemma_size_after_writes_general(size: nat, bufs: Seq<Seq<u8>>, pos: nat)
    ensures
        size_after_writes(size, bufs, pos) >= size,
        bufs.len() > 0 ==> size_after_writes(size, bufs, pos) >= pos + total_len(bufs),
    decreases bufs.len(),
{
    if bufs.len() == 0 {
    } else {
        let end = pos + bufs.first().len();
        let ns: nat = if end > size {
            end
        } else {
            size
        };
        lemma_size_after_writes_general(ns, bufs.drop_first(), end);
        assert(total_len(bufs) == bufs.first().len() + total_len(bufs.drop_first()));
        if bufs.drop_first().len() == 0 {
            assert(total_len(bufs.drop_first()) == 0);
            assert(size_after_writes(size, bufs, pos) == size_after_writes(
                ns,
                bufs.drop_first(),
                end,
            ));
        }
    }
}

/// Writes chained from position 0 read back exactly: after any sequence of
/// writes, each starting where the previous one ended, the first
/// `total_len(bufs)` bytes of the buffer are the written buffers in order,
/// and the recorded size has grown to cover them, so a read of that many
/// bytes from position 0 returns precisely the concatenation.
pub proof fn lemma_sequential_writes_read_back(data: Seq<u8>, size: nat, bufs: Seq<Seq<u8>>)
    ensures
        apply_writes(data, bufs, 0).take(total_len(bufs) as int) == bufs.flatten(),
        apply_writes(data, bufs, 0).len() >= total_len(bufs),
        size_after_writes(size, bufs, 0) >= total_len(bufs),
{
    if bufs.len() == 0 {
        assert(bufs.flatten() =~= Seq::<u8>::empty());
        assert(apply_writes(data, bufs, 0).take(0) =~= Seq::<u8>::empty());
    } else {
        lemma_apply_writes_general(data, bufs, 0);
        lemma_size_after_writes_general(size, bufs, 0);
        assert(apply_writes(data, bufs, 0).take(total_len(bufs) as int) =~= apply_writes(
            data,
            bufs,
            0,
        ).subrange(0, total_len(bufs) as int));
    }
}

} // verus!

verus! {

/// One more write extends a chain: writing `b` where the previous writes
/// ended turns `apply_writes(data, bufs, pos)` into
/// `apply_writes(data, bufs.push(b), pos)`. This is the bridge from the
/// executable path to the chain: `ramfs_write`'s postcondition produces
/// exactly the left-hand `write_bytes` once the file position has advanced
/// through the earlier writes, and `lemma_sequential_writes_read_back` then
/// turns the chain into the concatenated read-back.
pub proof fn lemma_write_extends_chain(data: Seq<u8>, bufs: Seq<Seq<u8>>, pos: nat, b: Seq<u8>)
    ensures
        write_bytes(apply_writes(data, bufs, pos), pos + total_len(bufs), b) == apply_writes(
            data,
            bufs.push(b),
            pos,
        ),
    decreases bufs.len(),
{
    if bufs.len() == 0 {
        assert(bufs.push(b).first() == b);
        assert(bufs.push(b).drop_first() =~= Seq::<Seq<u8>>::empty());
        assert(apply_writes(data, bufs, pos) == data);
        assert(total_len(bufs) == 0);
        assert(apply_writes(data, bufs.push(b), pos) == apply_writes(
            write_bytes(data, pos, b),
            Seq::<Seq<u8>>::empty(),
            pos + b.len(),
        ));
    } else {
        assert(bufs.push(b).first() == bufs.first());
        assert(bufs.push(b).drop_first() =~= bufs.drop_first().push(b));
        lemma_write_extends_chain(
            write_bytes(data, pos, bufs.first()),
            bufs.drop_first(),
            pos + bufs.first().len(),
            b,
        );
        assert(total_len(bufs) == bufs.first().len() + total_len(bufs.drop_first()));
    }
}

} // verus!
