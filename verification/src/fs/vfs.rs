//! VFS core: the registry of filesystem drivers, the global inode table, the
//! dentry arena, path resolution, and directory/file operations.
//!
//! A classical kernel keeps these as process-wide mutable globals linked by
//! raw pointers. Here they live in one [`Vfs`] value, and the pointer cycle
//! between inodes and dentries is replaced by stable identifiers: an inode is
//! found by its `ino`, a dentry by its index in the arena. Every dentry's
//! index is greater than its parent's, so parent chains terminate.

use crate::fs::dentry::Dentry;
use crate::fs::file::File;
use crate::fs::inode::Inode;
use crate::fs::ramfs::RamfsStore;
use crate::fs::super_block::SuperBlock;
use crate::fs::file_operations::FileOpImpl;
use crate::fs::inode_operations::InodeOpImpl;
use crate::fs::super_operations::SuperOperations;
use crate::types::{Dev, FMode, Gid, Mode, Uid};
use vstd::prelude::*;

verus! {

/// The tag of the driver routine behind a filesystem's `mount` slot.
#[derive(Clone, Copy, PartialEq, Eq, Structural, Debug)]
pub enum MountImpl {
    Ramfs,
}

/// The tag of the driver routine behind a filesystem's `kill_sb` slot.
#[derive(Clone, Copy, PartialEq, Eq, Structural, Debug)]
pub enum KillSbImpl {
    Ramfs,
}

/// A registered filesystem driver.
#[verifier::ext_equal]
pub struct Filesystem {
    /// Driver name, matched by `mount_filesystem`.
    pub name: Vec<u8>,
    pub mount: Option<MountImpl>,
    pub kill_sb: Option<KillSbImpl>,
    pub super_operations: Option<SuperOperations>,
    /// Superblocks mounted from this driver (indices into the arena).
    pub fs_supers: Vec<usize>,
}

/// Inos wrap below this bound when allocated; the wrap restarts at 2, since
/// ino 1 is reserved for the root.
pub const MAX_INODES: u64 = 65536;

/// The whole VFS state: every process-wide filesystem structure in one value,
/// accessed from a single context.
#[verifier::ext_equal]
pub struct Vfs {
    pub filesystems: Vec<Filesystem>,
    pub super_blocks: Vec<SuperBlock>,
    /// The global inode table; `i_ino` values are unique.
    pub inodes: Vec<Inode>,
    /// The dentry arena; a dentry's index exceeds its parent's.
    pub dentries: Vec<Dentry>,
    /// The system root, set by the first mount at "/".
    pub root_dentry: Option<usize>,
    /// Rolling cursor for ino allocation.
    pub next_ino: u64,
    /// The in-memory driver's per-ino byte buffers.
    pub ramfs_data: RamfsStore,
}


impl Vfs {
    /// Whether some inode in the table carries this ino.
    pub open spec fn ino_in_table(self, ino: u64) -> bool {
        exists|i: int| 0 <= i < self.inodes@.len() && self.inodes@[i].i_ino == ino
    }

    /// The table index of the inode carrying this ino.
    pub open spec fn inode_idx(self, ino: u64) -> int {
        choose|i: int| 0 <= i < self.inodes@.len() && self.inodes@[i].i_ino == ino
    }

    /// The inode carrying this ino.
    pub open spec fn inode_at(self, ino: u64) -> Inode {
        self.inodes@[self.inode_idx(ino)]
    }

    /// With unique inos, any table index holding `ino` is the index
    /// `inode_at` speaks of.
    pub proof fn lemma_inode_idx(self, ino: u64, i: int)
        requires
            self.inodes_wf(),
            0 <= i < self.inodes@.len(),
            self.inodes@[i].i_ino == ino,
        ensures
            self.ino_in_table(ino),
            self.inode_idx(ino) == i,
            self.inode_at(ino) == self.inodes@[i],
    {
        assert(self.ino_in_table(ino));
        let j = self.inode_idx(ino);
        if i < j {
            assert(self.inodes@[i].i_ino != self.inodes@[j].i_ino);
        } else if j < i {
            assert(self.inodes@[j].i_ino != self.inodes@[i].i_ino);
        }
    }

    /// The parts of the VFS that pure file-content operations leave alone.
    pub open spec fn same_tree(self, other: Vfs) -> bool {
        &&& other.filesystems@ == self.filesystems@
        &&& other.super_blocks@ == self.super_blocks@
        &&& other.dentries@ == self.dentries@
        &&& other.root_dentry == self.root_dentry
        &&& other.next_ino == self.next_ino
    }

    /// Inos are unique, at least 1, and reference only live superblocks and
    /// dentries.
    pub open spec fn inodes_wf(self) -> bool {
        &&& forall|i: int, j: int|
            0 <= i < j < self.inodes@.len() ==> self.inodes@[i].i_ino != self.inodes@[j].i_ino
        &&& forall|i: int|
            0 <= i < self.inodes@.len() ==> (#[trigger] self.inodes@[i]).i_ino >= 1
        &&& forall|i: int|
            0 <= i < self.inodes@.len() ==> match (#[trigger] self.inodes@[i]).i_sb {
                Some(s) => s < self.super_blocks@.len(),
                None => true,
            }
        &&& forall|i: int, k: int|
            0 <= i < self.inodes@.len() && 0 <= k < self.inodes@[i].i_dentry@.len()
                ==> #[trigger] self.inodes@[i].i_dentry@[k] < self.dentries@.len()
    }

    /// One dentry's links are coherent: its parent precedes it and lists it,
    /// its children follow it and point back, child names are unique, a named
    /// inode is in the table.
    pub open spec fn dentry_wf(self, i: int) -> bool {
        let d = self.dentries@[i];
        &&& match d.d_parent {
            Some(p) => {
                &&& p < i
                &&& self.dentries@[p as int].d_subdirs@.contains(i as usize)
                &&& crate::fs::path::valid_component(d.d_name@)
            },
            None => true,
        }
        &&& forall|k: int|
            0 <= k < d.d_subdirs@.len() ==> {
                let c = #[trigger] d.d_subdirs@[k];
                &&& i < c < self.dentries@.len()
                &&& self.dentries@[c as int].d_parent == Some(i as usize)
            }
        &&& forall|k1: int, k2: int|
            0 <= k1 < k2 < d.d_subdirs@.len()
                ==> self.dentries@[d.d_subdirs@[k1] as int].d_name@
                    != self.dentries@[d.d_subdirs@[k2] as int].d_name@
        &&& match d.d_inode {
            Some(ino) => self.ino_in_table(ino),
            None => true,
        }
        &&& match d.d_sb {
            Some(s) => s < self.super_blocks@.len(),
            None => true,
        }
    }

    /// Every dentry in the arena is coherent.
    pub open spec fn dentries_wf(self) -> bool {
        forall|i: int| 0 <= i < self.dentries@.len() ==> #[trigger] self.dentry_wf(i)
    }

    /// The in-memory driver's store agrees with the inode table: a backing
    /// buffer is never shorter than the recorded size, and an inode with no
    /// buffer has size zero.
    pub open spec fn data_wf(self) -> bool {
        &&& self.ramfs_data.wf()
        &&& forall|i: int|
            0 <= i < self.inodes@.len() ==> {
                let ind = #[trigger] self.inodes@[i];
                if self.ramfs_data.contains_spec(ind.i_ino) {
                    ind.i_size <= self.ramfs_data.data_of(ind.i_ino).len()
                } else {
                    ind.i_size == 0
                }
            }
    }

    /// Superblocks reference only live dentries and drivers.
    pub open spec fn supers_wf(self) -> bool {
        &&& forall|s: int|
            0 <= s < self.super_blocks@.len() ==> match (#[trigger] self.super_blocks@[s]).s_root {
                Some(d) => d < self.dentries@.len(),
                None => true,
            }
        &&& forall|s: int|
            0 <= s < self.super_blocks@.len() ==> match (#[trigger] self.super_blocks@[s]).s_fs {
                Some(f) => f < self.filesystems@.len(),
                None => true,
            }
        &&& forall|f: int, k: int|
            0 <= f < self.filesystems@.len() && 0 <= k < self.filesystems@[f].fs_supers@.len()
                ==> #[trigger] self.filesystems@[f].fs_supers@[k] < self.super_blocks@.len()
    }

    /// The system root, when set, is a live dentry with no parent.
    pub open spec fn root_wf(self) -> bool {
        match self.root_dentry {
            Some(r) => r < self.dentries@.len() && self.dentries@[r as int].d_parent is None,
            None => true,
        }
    }

    /// The well-formedness every VFS operation preserves.
    pub open spec fn wf(self) -> bool {
        &&& self.inodes_wf()
        &&& self.dentries_wf()
        &&& self.data_wf()
        &&& self.supers_wf()
        &&& self.root_wf()
        &&& 2 <= self.next_ino < MAX_INODES
    }

    /// An empty VFS: no drivers registered, nothing mounted.
    pub fn new() -> (r: Vfs)
        ensures
            r.wf(),
            r.filesystems@.len() == 0,
            r.super_blocks@.len() == 0,
            r.inodes@.len() == 0,
            r.dentries@.len() == 0,
            r.root_dentry is None,
            r.next_ino == 2,
            r.ramfs_data.entries@.len() == 0,
    {
        Vfs {
            filesystems: Vec::new(),
            super_blocks: Vec::new(),
            inodes: Vec::new(),
            dentries: Vec::new(),
            root_dentry: None,
            next_ino: 2,
            ramfs_data: RamfsStore::new(),
        }
    }

    /// Finds the table index of the inode with this ino.
    pub fn find_inode(&self, ino: u64) -> (r: Option<usize>)
        ensures
            match r {
                Some(i) => i < self.inodes@.len() && self.inodes@[i as int].i_ino == ino
                    && self.ino_in_table(ino),
                None => !self.ino_in_table(ino),
            },
    {
        let n = self.inodes.len();
        let mut i: usize = 0;
        while i < n
            invariant
                n == self.inodes@.len(),
                i <= n,
                forall|j: int| 0 <= j < i ==> self.inodes@[j].i_ino != ino,
            decreases n - i,
        {
            if self.inodes[i].i_ino == ino {
                return Some(i);
            }
            i = i + 1;
        }
        None
    }
}

/// One inode allocation step: `post` extends `pre`'s table by exactly one
/// inode numbered `ino`, an ino no table entry of `pre` carried.
pub open spec fn allocates_ino(pre: Vfs, post: Vfs, ino: u64) -> bool {
    &&& !pre.ino_in_table(ino)
    &&& 2 <= ino < MAX_INODES
    &&& post.inodes@.len() == pre.inodes@.len() + 1
    &&& post.inodes@.last().i_ino == ino
    &&& forall|j: int| 0 <= j < pre.inodes@.len() ==> post.inodes@[j] == pre.inodes@[j]
}

/// Inode allocation never hands out an ino the table already holds, so two
/// successive allocations hand out distinct inos: the first allocation's ino
/// is in the table the second one must avoid.
pub proof fn lemma_consecutive_inos_distinct(v0: Vfs, v1: Vfs, ino1: u64, v2: Vfs, ino2: u64)
    requires
        allocates_ino(v0, v1, ino1),
        allocates_ino(v1, v2, ino2),
    ensures
        ino1 != ino2,
{
    assert(v1.inodes@[v1.inodes@.len() - 1].i_ino == ino1);
    assert(v1.ino_in_table(ino1));
}

/// Allocates a fresh inode: the first free ino at or after the rolling
/// cursor (wrapping to 2 below [`MAX_INODES`], since ino 1 is the root's) is
/// claimed, and a new inode with that number, no operations, and size 0
/// joins the table. Returns `None` only when every ino from 2 below
/// [`MAX_INODES`] is taken.
pub fn allocate_empty_inode(
    vfs: &mut Vfs,
    mode: Mode,
    uid: Uid,
    gid: Gid,
    sb: Option<usize>,
) -> (r: Option<u64>)
    requires
        old(vfs).wf(),
        match sb {
            Some(s) => s < old(vfs).super_blocks@.len(),
            None => true,
        },
    ensures
        final(vfs).wf(),
        final(vfs).dentries@ == old(vfs).dentries@,
        final(vfs).super_blocks@ == old(vfs).super_blocks@,
        final(vfs).filesystems@ == old(vfs).filesystems@,
        final(vfs).root_dentry == old(vfs).root_dentry,
        final(vfs).ramfs_data == old(vfs).ramfs_data,
        match r {
            Some(ino) => {
                &&& allocates_ino(*old(vfs), *final(vfs), ino)
                &&& final(vfs).inodes@.last() == (Inode {
                    i_ino: ino,
                    i_count: 1,
                    i_mode: mode,
                    i_uid: uid,
                    i_gid: gid,
                    i_size: 0,
                    i_sb: sb,
                    file_operations: None,
                    inode_operations: None,
                    i_dentry: final(vfs).inodes@.last().i_dentry,
                })
                &&& final(vfs).inodes@.last().i_dentry@.len() == 0
                &&& final(vfs).next_ino == ino
                // The cursor scans forward first, then wraps: everything
                // between the old cursor and the claimed ino was taken.
                &&& (ino >= old(vfs).next_ino ==> forall|v: u64|
                    old(vfs).next_ino <= v < ino ==> old(vfs).ino_in_table(v))
                &&& (ino < old(vfs).next_ino ==> {
                    &&& forall|v: u64|
                        old(vfs).next_ino <= v < MAX_INODES ==> old(vfs).ino_in_table(v)
                    &&& forall|v: u64| 2 <= v < ino ==> old(vfs).ino_in_table(v)
                })
            },
            None => {
                &&& *final(vfs) == *old(vfs)
                &&& forall|v: u64| 2 <= v < MAX_INODES ==> old(vfs).ino_in_table(v)
            },
        },
{
    let mut candidate: u64 = vfs.next_ino;
    let mut found: bool = false;
    while candidate < MAX_INODES && !found
        invariant
            old(vfs).next_ino <= candidate <= MAX_INODES,
            *vfs == *old(vfs),
            found ==> candidate < MAX_INODES && !vfs.ino_in_table(candidate),
            forall|v: u64|
                old(vfs).next_ino <= v < candidate ==> vfs.ino_in_table(v),
        decreases MAX_INODES - candidate, if found { 0int } else { 1int },
    {
        if vfs.find_inode(candidate).is_none() {
            found = true;
        } else {
            candidate = candidate + 1;
        }
    }
    if !found {
        candidate = 2;
        while candidate < vfs.next_ino && !found
            invariant
                2 <= candidate <= vfs.next_ino,
                *vfs == *old(vfs),
                forall|v: u64|
                    old(vfs).next_ino <= v < MAX_INODES ==> vfs.ino_in_table(v),
                found ==> candidate < vfs.next_ino && !vfs.ino_in_table(candidate),
                forall|v: u64| 2 <= v < candidate ==> vfs.ino_in_table(v),
            decreases vfs.next_ino - candidate, if found { 0int } else { 1int },
        {
            if vfs.find_inode(candidate).is_none() {
                found = true;
            } else {
                candidate = candidate + 1;
            }
        }
    }
    if !found {
        return None;
    }
    let inode = Inode {
        i_ino: candidate,
        i_count: 1,
        i_mode: mode,
        i_uid: uid,
        i_gid: gid,
        i_size: 0,
        i_sb: sb,
        file_operations: None,
        inode_operations: None,
        i_dentry: Vec::new(),
    };
    vfs.inodes.push(inode);
    vfs.next_ino = candidate;
    proof {
        let pre = *old(vfs);
        let n = pre.inodes@.len() as int;
        assert forall|i: int| 0 <= i < vfs.dentries@.len() implies #[trigger] vfs
            .dentry_wf(i) by {
            assert(pre.dentry_wf(i));
            match vfs.dentries@[i].d_inode {
                Some(ino2) => {
                    let w = choose|w: int|
                        0 <= w < pre.inodes@.len() && pre.inodes@[w].i_ino == ino2;
                    assert(vfs.inodes@[w].i_ino == ino2);
                },
                None => {},
            }
        }
        assert forall|i: int| 0 <= i < vfs.inodes@.len() implies {
            let ind = #[trigger] vfs.inodes@[i];
            if vfs.ramfs_data.contains_spec(ind.i_ino) {
                ind.i_size <= vfs.ramfs_data.data_of(ind.i_ino).len()
            } else {
                ind.i_size == 0
            }
        } by {
            if i < n {
                assert(pre.inodes@[i] == vfs.inodes@[i]);
                assert(pre.data_wf());
            } else {
                assert(vfs.inodes@[i].i_size == 0);
            }
        }
    }
    Some(candidate)
}

} // verus!

verus! {

/// Whether directory `d` has a child dentry named `name`.
pub open spec fn has_child_named(vfs: Vfs, d: int, name: Seq<u8>) -> bool {
    exists|k: int|
        0 <= k < vfs.dentries@[d].d_subdirs@.len() && vfs.dentries@[vfs.dentries@[d].d_subdirs@[k]
            as int].d_name@ == name
}

/// The position in `d`'s child list of the child named `name`.
pub open spec fn child_pos_named(vfs: Vfs, d: int, name: Seq<u8>) -> int {
    choose|k: int|
        0 <= k < vfs.dentries@[d].d_subdirs@.len() && vfs.dentries@[vfs.dentries@[d].d_subdirs@[k]
            as int].d_name@ == name
}

/// The child of directory `d` named `name`, as an arena index.
pub open spec fn child_named(vfs: Vfs, d: int, name: Seq<u8>) -> Option<int> {
    if has_child_named(vfs, d, name) {
        Some(vfs.dentries@[d].d_subdirs@[child_pos_named(vfs, d, name)] as int)
    } else {
        None
    }
}

/// With child names unique, the child at any list position carrying `name`
/// is the child `child_named` speaks of.
pub proof fn lemma_child_named_at(vfs: Vfs, d: int, k: int)
    requires
        vfs.wf(),
        0 <= d < vfs.dentries@.len(),
        0 <= k < vfs.dentries@[d].d_subdirs@.len(),
    ensures
        child_named(vfs, d, vfs.dentries@[vfs.dentries@[d].d_subdirs@[k] as int].d_name@) == Some(
            vfs.dentries@[d].d_subdirs@[k] as int,
        ),
{
    assert(vfs.dentry_wf(d));
    let name = vfs.dentries@[vfs.dentries@[d].d_subdirs@[k] as int].d_name@;
    assert(has_child_named(vfs, d, name));
    let k2 = child_pos_named(vfs, d, name);
    if k < k2 {
        assert(vfs.dentries@[vfs.dentries@[d].d_subdirs@[k] as int].d_name@ != vfs.dentries@[
            vfs.dentries@[d].d_subdirs@[k2] as int].d_name@);
    } else if k2 < k {
        assert(vfs.dentries@[vfs.dentries@[d].d_subdirs@[k2] as int].d_name@ != vfs.dentries@[
            vfs.dentries@[d].d_subdirs@[k] as int].d_name@);
    }
}

/// Descends from dentry `d` through one child link per component.
pub open spec fn descend(vfs: Vfs, d: int, comps: Seq<Seq<u8>>) -> Option<int>
    decreases comps.len(),
{
    if comps.len() == 0 {
        Some(d)
    } else {
        match child_named(vfs, d, comps.first()) {
            Some(c) => descend(vfs, c, comps.drop_first()),
            None => None,
        }
    }
}

/// Finds the child of `d` named `name` in the children map.
pub fn lookup_child(vfs: &Vfs, d: usize, name: &[u8]) -> (r: Option<usize>)
    requires
        vfs.wf(),
        d < vfs.dentries@.len(),
    ensures
        match r {
            Some(c) => child_named(*vfs, d as int, name@) == Some(c as int) && d < c < vfs
                .dentries@.len(),
            None => child_named(*vfs, d as int, name@) is None,
        },
{
    let nsubs = vfs.dentries[d].d_subdirs.len();
    let mut k: usize = 0;
    while k < nsubs
        invariant
            vfs.wf(),
            d < vfs.dentries@.len(),
            nsubs == vfs.dentries@[d as int].d_subdirs@.len(),
            k <= nsubs,
            forall|t: int|
                0 <= t < k ==> vfs.dentries@[vfs.dentries@[d as int].d_subdirs@[t] as int].d_name@
                    != name@,
        decreases nsubs - k,
    {
        let c = vfs.dentries[d].d_subdirs[k];
        proof {
            assert(vfs.dentry_wf(d as int));
        }
        if crate::fs::path::bytes_eq(vfs.dentries[c].d_name.as_slice(), name) {
            proof {
                lemma_child_named_at(*vfs, d as int, k as int);
            }
            return Some(c);
        }
        k = k + 1;
    }
    proof {
        assert(!has_child_named(*vfs, d as int, name@));
    }
    None
}

/// Resolves an absolute path from the system root: split on separators,
/// discard empty components, and descend the children maps. The empty path
/// and the bare separator resolve to the root; an absent component resolves
/// to nothing.
pub fn resolve_path(vfs: &Vfs, path: &[u8]) -> (r: Option<usize>)
    requires
        vfs.wf(),
    ensures
        match vfs.root_dentry {
            None => r is None,
            Some(root) => match descend(*vfs, root as int, crate::fs::path::split_path(path@)) {
                Some(dd) => 0 <= dd < vfs.dentries@.len() && r == Some(dd as usize),
                None => r is None,
            },
        },
        match r {
            Some(d) => d < vfs.dentries@.len(),
            None => true,
        },
{
    let root = match vfs.root_dentry {
        Some(r0) => r0,
        None => {
            return None;
        },
    };
    let comps = crate::fs::path::split_components(path);
    let ghost cseq = comps@.map_values(|v: Vec<u8>| v@);
    let mut cur = root;
    let mut idx: usize = 0;
    proof {
        assert(cseq.skip(0) =~= cseq);
    }
    let ncomps = comps.len();
    while idx < ncomps
        invariant
            vfs.wf(),
            cur < vfs.dentries@.len(),
            ncomps == comps@.len(),
            idx <= ncomps,
            cseq == comps@.map_values(|v: Vec<u8>| v@),
            cseq == crate::fs::path::split_path(path@),
            vfs.root_dentry == Some(root),
            descend(*vfs, root as int, cseq) == descend(*vfs, cur as int, cseq.skip(idx as int)),
        decreases ncomps - idx,
    {
        let ghost rem = cseq.skip(idx as int);
        proof {
            assert(rem.first() == cseq[idx as int]);
            assert(cseq[idx as int] == comps@[idx as int]@);
            assert(rem.drop_first() =~= cseq.skip(idx + 1));
        }
        match lookup_child(vfs, cur, comps[idx].as_slice()) {
            Some(c) => {
                proof {
                    assert(descend(*vfs, cur as int, rem) == descend(*vfs, c as int,
                    rem.drop_first()));
                }
                cur = c;
            },
            None => {
                proof {
                    assert(child_named(*vfs, cur as int, rem.first()) is None);
                    assert(descend(*vfs, cur as int, rem) is None);
                }
                return None;
            },
        }
        idx = idx + 1;
    }
    proof {
        assert(cseq.skip(ncomps as int) =~= Seq::<Seq<u8>>::empty());
    }
    Some(cur)
}

/// Whether dentry `d` hangs off the system root through parent links.
pub open spec fn reachable(vfs: Vfs, d: int) -> bool
    decreases d,
{
    &&& 0 <= d < vfs.dentries@.len()
    &&& (vfs.root_dentry == Some(d as usize) || match vfs.dentries@[d].d_parent {
        Some(p) => p < d && reachable(vfs, p as int),
        None => false,
    })
}

/// The component names along the parent chain of `d`, root first. The root
/// itself contributes no name; so does a parentless dentry outside the tree.
pub open spec fn path_names(vfs: Vfs, d: int) -> Seq<Seq<u8>>
    decreases d,
{
    if vfs.root_dentry == Some(d as usize) {
        Seq::<Seq<u8>>::empty()
    } else {
        match vfs.dentries@[d].d_parent {
            Some(p) => if 0 <= (p as int) < d {
                path_names(vfs, p as int).push(vfs.dentries@[d].d_name@)
            } else {
                Seq::<Seq<u8>>::empty()
            },
            None => Seq::<Seq<u8>>::empty(),
        }
    }
}

/// The absolute path of dentry `d`: a separator before each component name
/// on the way down from the root, or the bare separator for the root itself.
pub open spec fn full_path_spec(vfs: Vfs, d: int) -> Seq<u8> {
    if path_names(vfs, d).len() == 0 {
        seq![crate::fs::path::SEP]
    } else {
        crate::fs::path::join_path(path_names(vfs, d))
    }
}

/// Joins the component names along the parent chain of `d`.
fn path_bytes(vfs: &Vfs, d: usize) -> (r: Vec<u8>)
    requires
        vfs.wf(),
        d < vfs.dentries@.len(),
    ensures
        r@ == crate::fs::path::join_path(path_names(*vfs, d as int)),
    decreases d,
{
    let is_root = match vfs.root_dentry {
        Some(r0) => r0 == d,
        None => false,
    };
    if is_root {
        let empty: Vec<u8> = Vec::new();
        return empty;
    }
    proof {
        assert(vfs.dentry_wf(d as int));
    }
    match vfs.dentries[d].d_parent {
        None => {
            let empty: Vec<u8> = Vec::new();
            empty
        },
        Some(p) => {
            let mut v = path_bytes(vfs, p);
            v.push(crate::fs::path::SEP);
            let namelen = vfs.dentries[d].d_name.len();
            let ghost name = vfs.dentries@[d as int].d_name@;
            let ghost prefix = v@;
            let mut t: usize = 0;
            while t < namelen
                invariant
                    vfs.wf(),
                    d < vfs.dentries@.len(),
                    namelen == vfs.dentries@[d as int].d_name@.len(),
                    name == vfs.dentries@[d as int].d_name@,
                    t <= namelen,
                    v@ == prefix + name.take(t as int),
                decreases namelen - t,
            {
                let b = vfs.dentries[d].d_name[t];
                v.push(b);
                proof {
                    assert(v@ =~= prefix + name.take(t + 1));
                }
                t = t + 1;
            }
            proof {
                crate::fs::path::lemma_join_push(path_names(*vfs, p as int), name);
                assert(name.take(namelen as int) =~= name);
                assert(v@ =~= crate::fs::path::join_path(path_names(*vfs, d as int)));
            }
            v
        },
    }
}

/// The absolute path of dentry `d`: walks parents to the root collecting
/// names, and joins them with separators; the root alone yields the bare
/// separator.
pub fn get_full_path(vfs: &Vfs, d: usize) -> (r: Vec<u8>)
    requires
        vfs.wf(),
        d < vfs.dentries@.len(),
    ensures
        r@ == full_path_spec(*vfs, d as int),
{
    let v = path_bytes(vfs, d);
    if v.len() == 0 {
        proof {
            assert(path_names(*vfs, d as int).len() == 0) by {
                if path_names(*vfs, d as int).len() > 0 {
                    assert(crate::fs::path::join_path(path_names(*vfs, d as int)).len() > 0);
                }
            }
        }
        let mut slash: Vec<u8> = Vec::new();
        slash.push(crate::fs::path::SEP);
        proof {
            assert(slash@ =~= seq![crate::fs::path::SEP]);
        }
        slash
    } else {
        v
    }
}

/// Appends a filesystem driver to the registry.
pub fn register_filesystem(vfs: &mut Vfs, fs: Filesystem)
    requires
        old(vfs).wf(),
        forall|k: int|
            0 <= k < fs.fs_supers@.len() ==> #[trigger] fs.fs_supers@[k] < old(
                vfs,
            ).super_blocks@.len(),
    ensures
        final(vfs).wf(),
        final(vfs).filesystems@ == old(vfs).filesystems@.push(fs),
        final(vfs).super_blocks@ == old(vfs).super_blocks@,
        final(vfs).inodes@ == old(vfs).inodes@,
        final(vfs).dentries@ == old(vfs).dentries@,
        final(vfs).root_dentry == old(vfs).root_dentry,
        final(vfs).next_ino == old(vfs).next_ino,
        final(vfs).ramfs_data == old(vfs).ramfs_data,
{
    vfs.filesystems.push(fs);
    proof {
        let pre = *old(vfs);
        assert forall|i: int| 0 <= i < vfs.dentries@.len() implies #[trigger] vfs.dentry_wf(
            i,
        ) by {
            assert(pre.dentry_wf(i));
        }
        assert forall|i: int| 0 <= i < vfs.inodes@.len() implies {
            let ind2 = #[trigger] vfs.inodes@[i];
            if vfs.ramfs_data.contains_spec(ind2.i_ino) {
                ind2.i_size <= vfs.ramfs_data.data_of(ind2.i_ino).len()
            } else {
                ind2.i_size == 0
            }
        } by {
            assert(pre.data_wf());
        }
    }
}

/// Finds the first registered driver with this name.
pub fn get_filesystem_by_name(vfs: &Vfs, name: &[u8]) -> (r: Option<usize>)
    ensures
        match r {
            Some(i) => {
                &&& i < vfs.filesystems@.len()
                &&& vfs.filesystems@[i as int].name@ == name@
                &&& forall|j: int| 0 <= j < i ==> vfs.filesystems@[j].name@ != name@
            },
            None => forall|j: int|
                0 <= j < vfs.filesystems@.len() ==> vfs.filesystems@[j].name@ != name@,
        },
{
    let n = vfs.filesystems.len();
    let mut i: usize = 0;
    while i < n
        invariant
            n == vfs.filesystems@.len(),
            i <= n,
            forall|j: int| 0 <= j < i ==> vfs.filesystems@[j].name@ != name@,
        decreases n - i,
    {
        if crate::fs::path::bytes_eq(vfs.filesystems[i].name.as_slice(), name) {
            return Some(i);
        }
        i = i + 1;
    }
    None
}

} // verus!

verus! {

/// Whether `name` can serve as a component name.
pub fn valid_name_exec(name: &[u8]) -> (r: bool)
    ensures
        r == crate::fs::path::valid_component(name@),
{
    if name.len() == 0 {
        return false;
    }
    let n = name.len();
    let mut i: usize = 0;
    while i < n
        invariant
            n == name@.len(),
            i <= n,
            forall|k: int| 0 <= k < i ==> name@[k] != 47u8,
        decreases n - i,
    {
        if name[i] == 47 {
            return false;
        }
        i = i + 1;
    }
    true
}

/// Hangs a fresh dentry named `name` under `parent`, pointing at the inode
/// just appended to the table, and records the back-link in that inode.
fn link_new_dentry(vfs: &mut Vfs, parent: usize, name: &[u8], ino: u64) -> (new_id: usize)
    requires
        old(vfs).wf(),
        parent < old(vfs).dentries@.len(),
        crate::fs::path::valid_component(name@),
        !has_child_named(*old(vfs), parent as int, name@),
        old(vfs).inodes@.len() > 0,
        old(vfs).inodes@.last().i_ino == ino,
        old(vfs).inodes@.last().i_dentry@.len() == 0,
    ensures
        final(vfs).wf(),
        new_id == old(vfs).dentries@.len(),
        final(vfs).dentries@.len() == old(vfs).dentries@.len() + 1,
        forall|i: int|
            0 <= i < old(vfs).dentries@.len() && i != parent ==> final(vfs).dentries@[i] == old(
                vfs,
            ).dentries@[i],
        ({
            let dp = final(vfs).dentries@[parent as int];
            let op = old(vfs).dentries@[parent as int];
            &&& dp.d_name == op.d_name
            &&& dp.d_inode == op.d_inode
            &&& dp.d_sb == op.d_sb
            &&& dp.d_op == op.d_op
            &&& dp.d_parent == op.d_parent
            &&& dp.d_subdirs@ == op.d_subdirs@.push(new_id)
        }),
        ({
            let nd = final(vfs).dentries@.last();
            &&& nd.d_name@ == name@
            &&& nd.d_inode == Some(ino)
            &&& nd.d_sb == old(vfs).dentries@[parent as int].d_sb
            &&& nd.d_op == old(vfs).dentries@[parent as int].d_op
            &&& nd.d_parent == Some(parent)
            &&& nd.d_subdirs@.len() == 0
        }),
        final(vfs).inodes@.len() == old(vfs).inodes@.len(),
        forall|j: int|
            0 <= j < old(vfs).inodes@.len() - 1 ==> final(vfs).inodes@[j] == old(vfs).inodes@[j],
        ({
            let ni = final(vfs).inodes@.last();
            let oi = old(vfs).inodes@.last();
            &&& ni.i_ino == oi.i_ino
            &&& ni.i_count == oi.i_count
            &&& ni.i_mode == oi.i_mode
            &&& ni.i_uid == oi.i_uid
            &&& ni.i_gid == oi.i_gid
            &&& ni.i_size == oi.i_size
            &&& ni.i_sb == oi.i_sb
            &&& ni.file_operations == oi.file_operations
            &&& ni.inode_operations == oi.inode_operations
            &&& ni.i_dentry@ == seq![new_id]
        }),
        final(vfs).super_blocks@ == old(vfs).super_blocks@,
        final(vfs).filesystems@ == old(vfs).filesystems@,
        final(vfs).root_dentry == old(vfs).root_dentry,
        final(vfs).next_ino == old(vfs).next_ino,
        final(vfs).ramfs_data == old(vfs).ramfs_data,
{
    let new_id = vfs.dentries.len();
    let psb = vfs.dentries[parent].d_sb;
    let pop = vfs.dentries[parent].d_op;
    let namev = vstd::slice::slice_to_vec(name);
    vfs.dentries.push(
        Dentry {
            d_name: namev,
            d_inode: Some(ino),
            d_sb: psb,
            d_op: pop,
            d_parent: Some(parent),
            d_subdirs: Vec::new(),
        },
    );
    let pd = &mut vfs.dentries[parent];
    pd.d_subdirs.push(new_id);
    let ni = vfs.inodes.len() - 1;
    let ind = &mut vfs.inodes[ni];
    ind.i_dentry.push(new_id);
    proof {
        let pre = *old(vfs);
        let dlen = pre.dentries@.len() as int;
        assert forall|j: int| 0 <= j < vfs.inodes@.len() implies vfs.inodes@[j].i_ino
            == pre.inodes@[j].i_ino && vfs.inodes@[j].i_sb == pre.inodes@[j].i_sb
            && vfs.inodes@[j].i_size == pre.inodes@[j].i_size by {
            if j < ni as int {
                assert(vfs.inodes@[j] == pre.inodes@[j]);
            }
        }
        assert(vfs.inodes_wf()) by {
            assert forall|j: int, k: int|
                0 <= j < vfs.inodes@.len() && 0 <= k < vfs.inodes@[j].i_dentry@.len() implies
                #[trigger] vfs.inodes@[j].i_dentry@[k] < vfs.dentries@.len() by {
                if j < ni as int {
                    assert(vfs.inodes@[j] == pre.inodes@[j]);
                } else {
                    assert(vfs.inodes@[j].i_dentry@ =~= seq![new_id]);
                }
            }
        }
        assert(vfs.inode_at(ino) == vfs.inodes@.last() && vfs.ino_in_table(ino)) by {
            vfs.lemma_inode_idx(ino, ni as int);
        }
        assert(vfs.inodes@.last().i_dentry@ =~= seq![new_id]);
        assert forall|i: int| 0 <= i < vfs.dentries@.len() implies #[trigger] vfs.dentry_wf(
            i,
        ) by {
            if i == new_id as int {
                // The new leaf: parent precedes it and lists it last.
                assert(pre.dentry_wf(parent as int));
                assert(vfs.dentries@[parent as int].d_subdirs@.last() == new_id);
                assert(vfs.dentries@[parent as int].d_subdirs@.contains(new_id));
            } else if i == parent as int {
                assert(pre.dentry_wf(i));
                let subs = vfs.dentries@[i].d_subdirs@;
                let presubs = pre.dentries@[i].d_subdirs@;
                assert(subs =~= presubs.push(new_id));
                match vfs.dentries@[i].d_parent {
                    Some(p) => {
                        assert(vfs.dentries@[p as int] == pre.dentries@[p as int]);
                        assert(pre.dentries@[p as int].d_subdirs@.contains(parent));
                    },
                    None => {},
                }
                assert forall|k: int| 0 <= k < subs.len() implies {
                    let c = #[trigger] subs[k];
                    &&& i < c < vfs.dentries@.len()
                    &&& vfs.dentries@[c as int].d_parent == Some(i as usize)
                } by {
                    if k < presubs.len() {
                        assert(subs[k] == presubs[k]);
                        assert(vfs.dentries@[presubs[k] as int] == pre.dentries@[presubs[k]
                            as int]);
                    }
                }
                assert forall|k1: int, k2: int| 0 <= k1 < k2 < subs.len() implies vfs.dentries@[
                    subs[k1] as int].d_name@ != vfs.dentries@[subs[k2] as int].d_name@ by {
                    if k2 < presubs.len() {
                        assert(vfs.dentries@[subs[k1] as int] == pre.dentries@[presubs[k1]
                            as int]);
                        assert(vfs.dentries@[subs[k2] as int] == pre.dentries@[presubs[k2]
                            as int]);
                    } else {
                        // The new child: nothing under this parent bore its
                        // name before.
                        assert(subs[k2] == new_id);
                        assert(vfs.dentries@[subs[k1] as int] == pre.dentries@[presubs[k1]
                            as int]);
                        assert(pre.dentries@[presubs[k1] as int].d_name@ != name@);
                    }
                }
                match vfs.dentries@[i].d_inode {
                    Some(ino2) => {
                        assert(pre.ino_in_table(ino2));
                        let w = choose|w: int|
                            0 <= w < pre.inodes@.len() && pre.inodes@[w].i_ino == ino2;
                        assert(vfs.inodes@[w].i_ino == ino2);
                    },
                    None => {},
                }
            } else {
                assert(pre.dentry_wf(i));
                assert(vfs.dentries@[i] == pre.dentries@[i]);
                match vfs.dentries@[i].d_parent {
                    Some(p) => {
                        if p == parent {
                            assert(pre.dentries@[parent as int].d_subdirs@.contains(i as usize));
                            assert(vfs.dentries@[parent as int].d_subdirs@.contains(i as usize))
                                by {
                                let subs0 = pre.dentries@[parent as int].d_subdirs@;
                                let kk = choose|kk: int|
                                    0 <= kk < subs0.len() && subs0[kk] == i as usize;
                                assert(vfs.dentries@[parent as int].d_subdirs@[kk] == i as usize);
                            }
                        } else {
                            assert(vfs.dentries@[p as int] == pre.dentries@[p as int]);
                        }
                    },
                    None => {},
                }
                assert forall|k: int| 0 <= k < vfs.dentries@[i].d_subdirs@.len() implies {
                    let c = #[trigger] vfs.dentries@[i].d_subdirs@[k];
                    &&& i < c < vfs.dentries@.len()
                    &&& vfs.dentries@[c as int].d_parent == Some(i as usize)
                } by {
                    let c = vfs.dentries@[i].d_subdirs@[k];
                    assert(pre.dentries@[i].d_subdirs@[k] == c);
                    assert(c < dlen);
                    if c != parent {
                        assert(vfs.dentries@[c as int] == pre.dentries@[c as int]);
                    }
                }
                assert forall|k1: int, k2: int|
                    0 <= k1 < k2 < vfs.dentries@[i].d_subdirs@.len() implies vfs.dentries@[
                    vfs.dentries@[i].d_subdirs@[k1] as int].d_name@ != vfs.dentries@[
                    vfs.dentries@[i].d_subdirs@[k2] as int].d_name@ by {
                    let c1 = vfs.dentries@[i].d_subdirs@[k1];
                    let c2 = vfs.dentries@[i].d_subdirs@[k2];
                    assert(c1 < dlen && c2 < dlen);
                    assert(vfs.dentries@[c1 as int].d_name == pre.dentries@[c1 as int].d_name);
                    assert(vfs.dentries@[c2 as int].d_name == pre.dentries@[c2 as int].d_name);
                }
                match vfs.dentries@[i].d_inode {
                    Some(ino2) => {
                        assert(pre.ino_in_table(ino2));
                        let w = choose|w: int|
                            0 <= w < pre.inodes@.len() && pre.inodes@[w].i_ino == ino2;
                        assert(vfs.inodes@[w].i_ino == ino2);
                    },
                    None => {},
                }
            }
        }
        assert forall|i: int| 0 <= i < vfs.inodes@.len() implies {
            let ind2 = #[trigger] vfs.inodes@[i];
            if vfs.ramfs_data.contains_spec(ind2.i_ino) {
                ind2.i_size <= vfs.ramfs_data.data_of(ind2.i_ino).len()
            } else {
                ind2.i_size == 0
            }
        } by {
            assert(pre.data_wf());
            if i < ni as int {
                assert(vfs.inodes@[i] == pre.inodes@[i]);
            } else {
                assert(vfs.inodes@[i].i_ino == pre.inodes@[i].i_ino);
                assert(vfs.inodes@[i].i_size == pre.inodes@[i].i_size);
            }
        }
    }
    new_id
}

} // verus!

verus! {

/// Creates a directory named `name` under the dentry `parent`: the parent
/// inode's mkdir operation (or, failing that, its create operation with the
/// directory bit forced on) allocates the inode, and a fresh dentry is hung
/// under the parent. Fails when the parent or its inode is missing or
/// operation-less, the name is taken or cannot be a path component, or inos
/// are exhausted.
pub fn mkdir(vfs: &mut Vfs, parent: usize, name: &[u8], mode: Mode, uid: Uid, gid: Gid) -> (r:
    Option<usize>)
    requires
        old(vfs).wf(),
    ensures
        final(vfs).wf(),
        r is None ==> *final(vfs) == *old(vfs),
        r is None ==> (parent >= old(vfs).dentries@.len() || !crate::fs::path::valid_component(name@)
            || has_child_named(*old(vfs), parent as int, name@) || old(vfs).dentries@[
        parent as int].d_inode is None || (match old(vfs).dentries@[parent as int].d_inode {
            Some(pino) => match old(vfs).inode_at(pino).inode_operations {
                Some(iops) => iops.mkdir is None && iops.create is None,
                None => true,
            },
            None => true,
        }) || (forall|v: u64| 2 <= v < MAX_INODES ==> old(vfs).ino_in_table(v))),
        match r {
            None => true,
            Some(new_id) => {
                let pre = *old(vfs);
                let post = *final(vfs);
                let ino = post.next_ino;
                &&& parent < pre.dentries@.len()
                &&& crate::fs::path::valid_component(name@)
                &&& !has_child_named(pre, parent as int, name@)
                &&& new_id == pre.dentries@.len()
                &&& !pre.ino_in_table(ino)
                &&& 2 <= ino < MAX_INODES
                &&& post.dentries@.len() == pre.dentries@.len() + 1
                &&& (forall|i: int|
                    0 <= i < pre.dentries@.len() && i != parent ==> post.dentries@[i]
                        == pre.dentries@[i])
                &&& ({
                    let dp = post.dentries@[parent as int];
                    let op = pre.dentries@[parent as int];
                    &&& dp.d_name == op.d_name
                    &&& dp.d_inode == op.d_inode
                    &&& dp.d_sb == op.d_sb
                    &&& dp.d_op == op.d_op
                    &&& dp.d_parent == op.d_parent
                    &&& dp.d_subdirs@ == op.d_subdirs@.push(new_id)
                })
                &&& ({
                    let nd = post.dentries@.last();
                    &&& nd.d_name@ == name@
                    &&& nd.d_inode == Some(ino)
                    &&& nd.d_parent == Some(parent)
                    &&& nd.d_subdirs@.len() == 0
                    &&& nd.d_sb == pre.dentries@[parent as int].d_sb
                })
                &&& post.inodes@.len() == pre.inodes@.len() + 1
                &&& (forall|j: int|
                    0 <= j < pre.inodes@.len() ==> post.inodes@[j] == pre.inodes@[j])
                &&& ({
                    let last = post.inodes@.last();
                    &&& last.i_ino == ino
                    &&& last.i_mode == Mode(mode.0 | 0o40000)
                    &&& last.i_size == 0
                    &&& last.file_operations == Some(
                        crate::fs::ramfs::spec_ramfs_file_operations(),
                    )
                    &&& last.i_dentry@ == seq![new_id]
                })
                &&& (match pre.dentries@[parent as int].d_inode {
                    Some(pino) => {
                        let dir = pre.inode_at(pino);
                        let last = post.inodes@.last();
                        &&& last.i_sb == dir.i_sb
                        &&& last.inode_operations == dir.inode_operations
                        &&& (dir.inode_operations is Some
                            && dir.inode_operations.unwrap().mkdir is Some ==> last.i_uid
                            == dir.i_uid && last.i_gid == dir.i_gid)
                        &&& (dir.inode_operations is Some
                            && dir.inode_operations.unwrap().mkdir is None ==> last.i_uid == uid
                            && last.i_gid == gid)
                    },
                    None => false,
                })
                &&& post.super_blocks@ == pre.super_blocks@
                &&& post.filesystems@ == pre.filesystems@
                &&& post.root_dentry == pre.root_dentry
                &&& post.ramfs_data == pre.ramfs_data
            },
        },
{
    if parent >= vfs.dentries.len() {
        return None;
    }
    if !valid_name_exec(name) {
        return None;
    }
    if lookup_child(vfs, parent, name).is_some() {
        return None;
    }
    let pino = match vfs.dentries[parent].d_inode {
        Some(pi) => pi,
        None => {
            return None;
        },
    };
    proof {
        assert(vfs.dentry_wf(parent as int));
    }
    let pii = match vfs.find_inode(pino) {
        Some(x) => x,
        None => {
            // A linked dentry's inode is always in the table.
            proof {
                assert(false);
            }
            return None;
        },
    };
    proof {
        vfs.lemma_inode_idx(pino, pii as int);
    }
    let iops = match vfs.inodes[pii].inode_operations {
        Some(ops) => ops,
        None => {
            return None;
        },
    };
    let ino_opt = match iops.mkdir {
        Some(InodeOpImpl::Ramfs) => crate::fs::ramfs::ramfs_mkdir(vfs, pino, mode),
        None => match iops.create {
            Some(InodeOpImpl::Ramfs) => crate::fs::ramfs::ramfs_create(
                vfs,
                pino,
                Mode(mode.0 | 0o40000),
                uid,
                gid,
            ),
            None => {
                return None;
            },
        },
    };
    let ino = match ino_opt {
        Some(x) => x,
        None => {
            return None;
        },
    };
    proof {
        assert(!has_child_named(*vfs, parent as int, name@)) by {
            if has_child_named(*vfs, parent as int, name@) {
                let k = child_pos_named(*vfs, parent as int, name@);
                assert(has_child_named(*old(vfs), parent as int, name@));
            }
        }
    }
    let new_id = link_new_dentry(vfs, parent, name, ino);
    Some(new_id)
}

/// Creates a regular file named `name` under the dentry `parent` through the
/// parent inode's create operation. The same failure causes as `mkdir`,
/// except that only the create slot is consulted and the mode is stored as
/// given.
pub fn create_file(vfs: &mut Vfs, parent: usize, name: &[u8], mode: Mode, uid: Uid, gid: Gid) -> (
    r: Option<usize>)
    requires
        old(vfs).wf(),
    ensures
        final(vfs).wf(),
        r is None ==> *final(vfs) == *old(vfs),
        r is None ==> (parent >= old(vfs).dentries@.len() || !crate::fs::path::valid_component(name@)
            || has_child_named(*old(vfs), parent as int, name@) || old(vfs).dentries@[
        parent as int].d_inode is None || (match old(vfs).dentries@[parent as int].d_inode {
            Some(pino) => match old(vfs).inode_at(pino).inode_operations {
                Some(iops) => iops.create is None,
                None => true,
            },
            None => true,
        }) || (forall|v: u64| 2 <= v < MAX_INODES ==> old(vfs).ino_in_table(v))),
        match r {
            None => true,
            Some(new_id) => {
                let pre = *old(vfs);
                let post = *final(vfs);
                let ino = post.next_ino;
                &&& parent < pre.dentries@.len()
                &&& crate::fs::path::valid_component(name@)
                &&& !has_child_named(pre, parent as int, name@)
                &&& new_id == pre.dentries@.len()
                &&& !pre.ino_in_table(ino)
                &&& 2 <= ino < MAX_INODES
                &&& post.dentries@.len() == pre.dentries@.len() + 1
                &&& (forall|i: int|
                    0 <= i < pre.dentries@.len() && i != parent ==> post.dentries@[i]
                        == pre.dentries@[i])
                &&& ({
                    let dp = post.dentries@[parent as int];
                    let op = pre.dentries@[parent as int];
                    &&& dp.d_name == op.d_name
                    &&& dp.d_inode == op.d_inode
                    &&& dp.d_sb == op.d_sb
                    &&& dp.d_op == op.d_op
                    &&& dp.d_parent == op.d_parent
                    &&& dp.d_subdirs@ == op.d_subdirs@.push(new_id)
                })
                &&& ({
                    let nd = post.dentries@.last();
                    &&& nd.d_name@ == name@
                    &&& nd.d_inode == Some(ino)
                    &&& nd.d_parent == Some(parent)
                    &&& nd.d_subdirs@.len() == 0
                    &&& nd.d_sb == pre.dentries@[parent as int].d_sb
                })
                &&& post.inodes@.len() == pre.inodes@.len() + 1
                &&& (forall|j: int|
                    0 <= j < pre.inodes@.len() ==> post.inodes@[j] == pre.inodes@[j])
                &&& ({
                    let last = post.inodes@.last();
                    &&& last.i_ino == ino
                    &&& last.i_mode == mode
                    &&& last.i_uid == uid
                    &&& last.i_gid == gid
                    &&& last.i_size == 0
                    &&& last.file_operations == Some(
                        crate::fs::ramfs::spec_ramfs_file_operations(),
                    )
                    &&& last.i_dentry@ == seq![new_id]
                })
                &&& (match pre.dentries@[parent as int].d_inode {
                    Some(pino) => {
                        let last = post.inodes@.last();
                        &&& last.i_sb == pre.inode_at(pino).i_sb
                        &&& last.inode_operations == pre.inode_at(pino).inode_operations
                    },
                    None => false,
                })
                &&& post.super_blocks@ == pre.super_blocks@
                &&& post.filesystems@ == pre.filesystems@
                &&& post.root_dentry == pre.root_dentry
                &&& post.ramfs_data == pre.ramfs_data
            },
        },
{
    if parent >= vfs.dentries.len() {
        return None;
    }
    if !valid_name_exec(name) {
        return None;
    }
    if lookup_child(vfs, parent, name).is_some() {
        return None;
    }
    let pino = match vfs.dentries[parent].d_inode {
        Some(pi) => pi,
        None => {
            return None;
        },
    };
    proof {
        assert(vfs.dentry_wf(parent as int));
    }
    let pii = match vfs.find_inode(pino) {
        Some(x) => x,
        None => {
            // A linked dentry's inode is always in the table.
            proof {
                assert(false);
            }
            return None;
        },
    };
    proof {
        vfs.lemma_inode_idx(pino, pii as int);
    }
    let iops = match vfs.inodes[pii].inode_operations {
        Some(ops) => ops,
        None => {
            return None;
        },
    };
    let ino_opt = match iops.create {
        Some(InodeOpImpl::Ramfs) => crate::fs::ramfs::ramfs_create(vfs, pino, mode, uid, gid),
        None => {
            return None;
        },
    };
    let ino = match ino_opt {
        Some(x) => x,
        None => {
            return None;
        },
    };
    proof {
        assert(!has_child_named(*vfs, parent as int, name@)) by {
            if has_child_named(*vfs, parent as int, name@) {
                let k = child_pos_named(*vfs, parent as int, name@);
                assert(has_child_named(*old(vfs), parent as int, name@));
            }
        }
    }
    let new_id = link_new_dentry(vfs, parent, name, ino);
    Some(new_id)
}

/// Appends a dentry attached to nothing: no inode, no parent, no superblock.
pub fn allocate_empty_dentry(vfs: &mut Vfs, name: &[u8]) -> (r: usize)
    requires
        old(vfs).wf(),
    ensures
        final(vfs).wf(),
        r == old(vfs).dentries@.len(),
        final(vfs).dentries@.len() == old(vfs).dentries@.len() + 1,
        forall|i: int|
            0 <= i < old(vfs).dentries@.len() ==> final(vfs).dentries@[i] == old(vfs).dentries@[i],
        ({
            let nd = final(vfs).dentries@.last();
            &&& nd.d_name@ == name@
            &&& nd.d_inode is None
            &&& nd.d_sb is None
            &&& nd.d_op is None
            &&& nd.d_parent is None
            &&& nd.d_subdirs@.len() == 0
        }),
        final(vfs).super_blocks@ == old(vfs).super_blocks@,
        final(vfs).inodes@ == old(vfs).inodes@,
        final(vfs).filesystems@ == old(vfs).filesystems@,
        final(vfs).root_dentry == old(vfs).root_dentry,
        final(vfs).next_ino == old(vfs).next_ino,
        final(vfs).ramfs_data == old(vfs).ramfs_data,
{
    let r = vfs.dentries.len();
    let namev = vstd::slice::slice_to_vec(name);
    vfs.dentries.push(
        Dentry {
            d_name: namev,
            d_inode: None,
            d_sb: None,
            d_op: None,
            d_parent: None,
            d_subdirs: Vec::new(),
        },
    );
    proof {
        let pre = *old(vfs);
        assert forall|i: int| 0 <= i < vfs.dentries@.len() implies #[trigger] vfs.dentry_wf(
            i,
        ) by {
            if i < pre.dentries@.len() {
                assert(pre.dentry_wf(i));
                assert(vfs.dentries@[i] == pre.dentries@[i]);
                match vfs.dentries@[i].d_parent {
                    Some(p) => {
                        assert(vfs.dentries@[p as int] == pre.dentries@[p as int]);
                    },
                    None => {},
                }
                assert forall|k: int| 0 <= k < vfs.dentries@[i].d_subdirs@.len() implies {
                    let c = #[trigger] vfs.dentries@[i].d_subdirs@[k];
                    &&& i < c < vfs.dentries@.len()
                    &&& vfs.dentries@[c as int].d_parent == Some(i as usize)
                } by {
                    let c = vfs.dentries@[i].d_subdirs@[k];
                    assert(c < pre.dentries@.len());
                    assert(vfs.dentries@[c as int] == pre.dentries@[c as int]);
                }
            }
        }
        assert forall|i: int| 0 <= i < vfs.inodes@.len() implies {
            let ind2 = #[trigger] vfs.inodes@[i];
            if vfs.ramfs_data.contains_spec(ind2.i_ino) {
                ind2.i_size <= vfs.ramfs_data.data_of(ind2.i_ino).len()
            } else {
                ind2.i_size == 0
            }
        } by {
            assert(pre.data_wf());
        }
    }
    r
}

} // verus!

verus! {

/// The index of the first registered driver named `name`, scanning from
/// position `from`.
pub open spec fn fs_named_from(vfs: Vfs, name: Seq<u8>, from: int) -> Option<int>
    decreases vfs.filesystems@.len() - from,
{
    if from < 0 || from >= vfs.filesystems@.len() {
        None::<int>
    } else if vfs.filesystems@[from].name@ == name {
        Some(from)
    } else {
        fs_named_from(vfs, name, from + 1)
    }
}

/// A scan that has not yet hit `name` can resume anywhere along the way.
pub proof fn lemma_fs_named_scan(vfs: Vfs, name: Seq<u8>, i: int)
    requires
        0 <= i <= vfs.filesystems@.len(),
        forall|j: int| 0 <= j < i ==> vfs.filesystems@[j].name@ != name,
    ensures
        fs_named_from(vfs, name, 0) == fs_named_from(vfs, name, i),
    decreases i,
{
    if i > 0 {
        lemma_fs_named_scan(vfs, name, i - 1);
    }
}

/// Mounts the named filesystem: finds the first registered driver under that
/// name and runs its mount routine, which yields the mount's root dentry.
/// Fails only when no driver carries the name or its mount slot is empty.
pub fn mount_filesystem(vfs: &mut Vfs, fs_name: &[u8], dev: u32, mount_point: &[u8]) -> (r: Option<
    usize,
>)
    requires
        old(vfs).wf(),
    ensures
        final(vfs).wf(),
        match r {
            None => *final(vfs) == *old(vfs) && (match fs_named_from(*old(vfs), fs_name@, 0) {
                Some(fi) => old(vfs).filesystems@[fi].mount is None,
                None => true,
            }),
            Some(d) => match fs_named_from(*old(vfs), fs_name@, 0) {
                Some(fi) => {
                    let pre = *old(vfs);
                    let post = *final(vfs);
                    &&& pre.filesystems@[fi].mount == Some(MountImpl::Ramfs)
                    &&& d == pre.dentries@.len()
                    &&& post.dentries@.len() == pre.dentries@.len() + 1
                    &&& (forall|i: int|
                        0 <= i < pre.dentries@.len() ==> post.dentries@[i] == pre.dentries@[i])
                    &&& ({
                        let nd = post.dentries@.last();
                        &&& nd.d_name@ == mount_point@
                        &&& nd.d_inode == Some(1u64)
                        &&& nd.d_parent is None
                        &&& nd.d_subdirs@.len() == 0
                        &&& nd.d_sb == Some(pre.super_blocks@.len() as usize)
                    })
                    &&& post.super_blocks@ == pre.super_blocks@.push(
                        SuperBlock {
                            s_dev: Dev(dev),
                            s_root: Some(d),
                            s_op: pre.filesystems@[fi].super_operations,
                            s_fs: Some(fi as usize),
                        },
                    )
                    &&& post.ino_in_table(1)
                    &&& ({
                        let ri = post.inode_at(1);
                        &&& ri.i_mode == Mode(0o40777)
                        &&& ri.i_uid == Uid(0)
                        &&& ri.i_gid == Gid(0)
                        &&& ri.i_size == 0
                        &&& ri.i_sb == Some(pre.super_blocks@.len() as usize)
                        &&& ri.file_operations == Some(
                            crate::fs::ramfs::spec_ramfs_file_operations(),
                        )
                        &&& ri.inode_operations == Some(
                            crate::fs::ramfs::spec_ramfs_inode_operations(),
                        )
                        &&& ri.i_dentry@ == seq![d]
                    })
                    &&& (forall|k: u64|
                        k != 1 ==> #[trigger] post.ino_in_table(k) == pre.ino_in_table(k))
                    &&& (forall|k: u64|
                        k != 1 && pre.ino_in_table(k) ==> #[trigger] post.inode_at(k)
                            == pre.inode_at(k))
                    &&& post.filesystems@ == pre.filesystems@
                    &&& post.root_dentry == pre.root_dentry
                    &&& post.next_ino == pre.next_ino
                    &&& post.ramfs_data == pre.ramfs_data
                },
                None => false,
            },
        },
{
    let fi = match get_filesystem_by_name(vfs, fs_name) {
        Some(fi) => fi,
        None => {
            proof {
                lemma_fs_named_scan(*vfs, fs_name@, vfs.filesystems@.len() as int);
            }
            return None;
        },
    };
    proof {
        lemma_fs_named_scan(*vfs, fs_name@, fi as int);
    }
    match vfs.filesystems[fi].mount {
        Some(MountImpl::Ramfs) => {
            let d = crate::fs::ramfs::ramfs_mount(vfs, fi, dev, mount_point);
            Some(d)
        },
        None => None,
    }
}

/// Makes dentry `d` the system root; everything else stays as it was.
fn set_root(vfs: &mut Vfs, d: usize)
    requires
        old(vfs).wf(),
        d < old(vfs).dentries@.len(),
        old(vfs).dentries@[d as int].d_parent is None,
    ensures
        final(vfs).wf(),
        final(vfs).root_dentry == Some(d),
        final(vfs).dentries@ == old(vfs).dentries@,
        final(vfs).inodes@ == old(vfs).inodes@,
        final(vfs).super_blocks@ == old(vfs).super_blocks@,
        final(vfs).filesystems@ == old(vfs).filesystems@,
        final(vfs).ramfs_data == old(vfs).ramfs_data,
        final(vfs).next_ino == old(vfs).next_ino,
{
    vfs.root_dentry = Some(d);
    proof {
        let pre = *old(vfs);
        assert forall|i: int| 0 <= i < vfs.dentries@.len() implies #[trigger] vfs.dentry_wf(
            i,
        ) by {
            assert(pre.dentry_wf(i));
            match vfs.dentries@[i].d_inode {
                Some(ino2) => {
                    assert(pre.ino_in_table(ino2));
                    let w = choose|w: int|
                        0 <= w < pre.inodes@.len() && pre.inodes@[w].i_ino == ino2;
                    assert(vfs.inodes@[w].i_ino == ino2);
                },
                None => {},
            }
        }
        assert forall|i: int| 0 <= i < vfs.inodes@.len() implies {
            let ind2 = #[trigger] vfs.inodes@[i];
            if vfs.ramfs_data.contains_spec(ind2.i_ino) {
                ind2.i_size <= vfs.ramfs_data.data_of(ind2.i_ino).len()
            } else {
                ind2.i_size == 0
            }
        } by {
            assert(pre.data_wf());
        }
    }
}

/// Two VFS states with the same inode table read the same: every ino is
/// present in one exactly when in the other, naming the same inode.
proof fn lemma_ino_table_congruent(a: Vfs, b: Vfs)
    requires
        a.inodes@ == b.inodes@,
        a.inodes_wf(),
    ensures
        forall|k: u64| #[trigger] a.ino_in_table(k) == b.ino_in_table(k),
        forall|k: u64| #[trigger] a.ino_in_table(k) ==> a.inode_at(k) == b.inode_at(k),
{
    assert forall|k: u64| #[trigger] a.ino_in_table(k) == b.ino_in_table(k) by {
        if a.ino_in_table(k) {
            let w = a.inode_idx(k);
            assert(b.inodes@[w].i_ino == k);
        }
        if b.ino_in_table(k) {
            let w = b.inode_idx(k);
            assert(a.inodes@[w].i_ino == k);
        }
    }
    assert forall|k: u64| #[trigger] a.ino_in_table(k) implies a.inode_at(k) == b.inode_at(k) by {
        let w = a.inode_idx(k);
        a.lemma_inode_idx(k, w);
        assert(b.inodes@[w].i_ino == k);
        assert(b.ino_in_table(k));
        let w2 = b.inode_idx(k);
        assert(a.inodes@[w2].i_ino == k);
        if w2 < w {
            assert(a.inodes@[w2].i_ino != a.inodes@[w].i_ino);
        } else if w < w2 {
            assert(a.inodes@[w].i_ino != a.inodes@[w2].i_ino);
        }
    }
}

/// Boots the VFS: registers the in-memory driver and mounts it at the root,
/// making the mount's root dentry the system root. When no driver named
/// "ramfs" was registered before, the mount is guaranteed and the root is
/// set.
#[verifier::rlimit(100)]
pub fn vfs_init(vfs: &mut Vfs)
    requires
        old(vfs).wf(),
        old(vfs).root_dentry is None,
    ensures
        final(vfs).wf(),
        // Boot touches nothing of the file-content state: the data store and
        // the ino cursor stay put, and every inode but the root's is exactly
        // as before, so freshly allocated inos stay provably fresh.
        final(vfs).ramfs_data == old(vfs).ramfs_data,
        final(vfs).next_ino == old(vfs).next_ino,
        forall|k: u64|
            k != 1 ==> #[trigger] final(vfs).ino_in_table(k) == old(vfs).ino_in_table(k),
        forall|k: u64|
            k != 1 && old(vfs).ino_in_table(k) ==> #[trigger] final(vfs).inode_at(k) == old(
                vfs,
            ).inode_at(k),
        final(vfs).filesystems@.len() == old(vfs).filesystems@.len() + 1,
        forall|i: int|
            0 <= i < old(vfs).filesystems@.len() ==> final(vfs).filesystems@[i] == old(
                vfs,
            ).filesystems@[i],
        (forall|j: int|
            0 <= j < old(vfs).filesystems@.len() ==> old(vfs).filesystems@[j].name@
                != crate::fs::ramfs::ramfs_name()) ==> {
            let post = *final(vfs);
            &&& post.root_dentry == Some(old(vfs).dentries@.len() as usize)
            &&& post.super_blocks@.len() == old(vfs).super_blocks@.len() + 1
            &&& post.dentries@.len() == old(vfs).dentries@.len() + 1
            &&& ({
                let nd = post.dentries@.last();
                &&& nd.d_name@ == seq![47u8]
                &&& nd.d_inode == Some(1u64)
                &&& nd.d_parent is None
                &&& nd.d_subdirs@.len() == 0
            })
            &&& post.ino_in_table(1)
            &&& post.inode_at(1).i_mode == Mode(0o40777)
            &&& post.inode_at(1).i_size == 0
            &&& post.inode_at(1).file_operations == Some(
                crate::fs::ramfs::spec_ramfs_file_operations(),
            )
            &&& post.inode_at(1).inode_operations == Some(
                crate::fs::ramfs::spec_ramfs_inode_operations(),
            )
            &&& (forall|i: int|
                0 <= i < old(vfs).dentries@.len() ==> post.dentries@[i] == old(vfs).dentries@[i])
        },
{
    crate::fs::ramfs::init_ramfs(vfs);
    let ghost mid = *vfs;
    let mut fs_name: Vec<u8> = Vec::new();
    fs_name.push(114u8);
    fs_name.push(97u8);
    fs_name.push(109u8);
    fs_name.push(102u8);
    fs_name.push(115u8);
    proof {
        assert(fs_name@ =~= crate::fs::ramfs::ramfs_name());
    }
    let mut slash: Vec<u8> = Vec::new();
    slash.push(47u8);
    proof {
        assert(slash@ =~= seq![47u8]);
    }
    let r = mount_filesystem(vfs, fs_name.as_slice(), 1, slash.as_slice());
    let ghost after_mount = *vfs;
    proof {
        // Registration changed no inode, so the table reads the same; the
        // mount then preserved every ino but 1.
        lemma_ino_table_congruent(*old(vfs), mid);
        assert forall|k: u64| k != 1 implies #[trigger] after_mount.ino_in_table(k)
            == old(vfs).ino_in_table(k) by {
            assert(after_mount.ino_in_table(k) == mid.ino_in_table(k));
        }
        assert forall|k: u64| k != 1 && old(vfs).ino_in_table(k) implies
            #[trigger] after_mount.inode_at(k) == old(vfs).inode_at(k) by {
            assert(mid.ino_in_table(k));
            assert(after_mount.inode_at(k) == mid.inode_at(k));
        }
    }
    let ghost prior_clean = forall|j: int|
        0 <= j < old(vfs).filesystems@.len() ==> old(vfs).filesystems@[j].name@
            != crate::fs::ramfs::ramfs_name();
    proof {
        if prior_clean {
            let n = mid.filesystems@.len() as int;
            assert(mid.filesystems@[n - 1].name@ == crate::fs::ramfs::ramfs_name());
            assert(forall|j: int|
                0 <= j < n - 1 ==> mid.filesystems@[j] == old(vfs).filesystems@[j]);
            lemma_fs_named_scan(mid, crate::fs::ramfs::ramfs_name(), n - 1);
            assert(fs_named_from(mid, crate::fs::ramfs::ramfs_name(), 0) == Some(n - 1));
            assert(mid.filesystems@[n - 1].mount == Some(MountImpl::Ramfs));
            assert(r is Some);
        }
    }
    match r {
        Some(d) => {
            set_root(vfs, d);
        },
        None => {
        },
    }
    proof {
        // Setting the root touches no inode either.
        lemma_ino_table_congruent(after_mount, *vfs);
        assert forall|k: u64| k != 1 implies #[trigger] vfs.ino_in_table(k) == old(
            vfs,
        ).ino_in_table(k) by {
            assert(after_mount.ino_in_table(k) == vfs.ino_in_table(k));
            assert(after_mount.ino_in_table(k) == old(vfs).ino_in_table(k));
        }
        assert forall|k: u64| k != 1 && old(vfs).ino_in_table(k) implies #[trigger] vfs.inode_at(
            k,
        ) == old(vfs).inode_at(k) by {
            assert(after_mount.ino_in_table(k));
            assert(after_mount.inode_at(k) == vfs.inode_at(k));
            assert(after_mount.inode_at(k) == old(vfs).inode_at(k));
        }
    }
}

} // verus!

verus! {

/// Opens the file a dentry names: a fresh cursor at position 0 with the
/// given access mode. The inode's open operation runs first; for the
/// in-memory driver it provisions the backing buffer. Fails when the dentry
/// or its inode is missing, or the inode carries no file operations.
pub fn open_file(vfs: &mut Vfs, dentry: usize, mode: FMode) -> (r: Option<File>)
    requires
        old(vfs).wf(),
    ensures
        final(vfs).wf(),
        match r {
            None => *final(vfs) == *old(vfs) && (dentry >= old(vfs).dentries@.len() || old(
                vfs,
            ).dentries@[dentry as int].d_inode is None || (
            match old(vfs).dentries@[dentry as int].d_inode {
                Some(ino) => old(vfs).inode_at(ino).file_operations is None,
                None => true,
            })),
            Some(f) => {
                &&& dentry < old(vfs).dentries@.len()
                &&& f.f_inode == old(vfs).dentries@[dentry as int].d_inode
                &&& f.f_inode is Some
                &&& f.f_mode == mode
                &&& f.f_pos == 0
                &&& old(vfs).same_tree(*final(vfs))
                &&& final(vfs).inodes@ == old(vfs).inodes@
                &&& (match old(vfs).dentries@[dentry as int].d_inode {
                    Some(ino) => {
                        &&& old(vfs).inode_at(ino).file_operations is Some
                        &&& (if old(vfs).inode_at(ino).file_operations.unwrap().open is Some {
                            &&& final(vfs).ramfs_data.contains_spec(ino)
                            &&& final(vfs).ramfs_data.data_of(ino) == crate::fs::ramfs::stored_data(
                                old(vfs).ramfs_data,
                                ino,
                            )
                            &&& (forall|k: u64|
                                k != ino ==> #[trigger] final(vfs).ramfs_data.contains_spec(k)
                                    == old(vfs).ramfs_data.contains_spec(k))
                            &&& (forall|k: u64|
                                k != ino && old(vfs).ramfs_data.contains_spec(k)
                                    ==> #[trigger] final(vfs).ramfs_data.data_of(k) == old(
                                    vfs,
                                ).ramfs_data.data_of(k))
                        } else {
                            final(vfs).ramfs_data == old(vfs).ramfs_data
                        })
                    },
                    None => false,
                })
            },
        },
{
    if dentry >= vfs.dentries.len() {
        return None;
    }
    let ino = match vfs.dentries[dentry].d_inode {
        Some(ino) => ino,
        None => {
            return None;
        },
    };
    proof {
        assert(vfs.dentry_wf(dentry as int));
    }
    let ii = match vfs.find_inode(ino) {
        Some(x) => x,
        None => {
            // A linked dentry's inode is always in the table.
            proof {
                assert(false);
            }
            return None;
        },
    };
    proof {
        vfs.lemma_inode_idx(ino, ii as int);
    }
    let fops = match vfs.inodes[ii].file_operations {
        Some(fops) => fops,
        None => {
            return None;
        },
    };
    match fops.open {
        Some(FileOpImpl::Ramfs) => {
            let rc = crate::fs::ramfs::ramfs_open(vfs, ino);
            if rc < 0 {
                // The in-memory open never fails on an inode that is in the
                // table.
                proof {
                    assert(false);
                }
                return None;
            }
        },
        None => {},
    }
    Some(File { f_inode: Some(ino), f_mode: mode, f_pos: 0 })
}

/// Reads from the file's inode at the file's position into the front of
/// `buf`, advancing the position by the count transferred. Returns the count
/// (0 at end-of-file or with no backing buffer), or -1 when the file has no
/// inode, the inode is missing, or it carries no read operation.
pub fn read_file(vfs: &Vfs, file: &mut File, buf: &mut Vec<u8>) -> (r: isize)
    requires
        vfs.wf(),
        old(buf)@.len() <= isize::MAX,
    ensures
        final(buf)@.len() == old(buf)@.len(),
        final(file).f_inode == old(file).f_inode,
        final(file).f_mode == old(file).f_mode,
        match old(file).f_inode {
            None => r == -1 && final(buf)@ == old(buf)@ && final(file).f_pos == old(file).f_pos,
            Some(ino) => {
                if !vfs.ino_in_table(ino) {
                    r == -1 && final(buf)@ == old(buf)@ && final(file).f_pos == old(file).f_pos
                } else if vfs.inode_at(ino).file_operations is None || vfs.inode_at(
                    ino,
                ).file_operations.unwrap().read is None {
                    r == -1 && final(buf)@ == old(buf)@ && final(file).f_pos == old(file).f_pos
                } else {
                    let size = vfs.inode_at(ino).i_size;
                    let p = old(file).f_pos;
                    &&& (p >= size ==> r == 0 && final(buf)@ == old(buf)@ && final(file).f_pos
                        == p)
                    &&& (p < size && !vfs.ramfs_data.contains_spec(ino) ==> r == 0 && final(buf)@
                        == old(buf)@ && final(file).f_pos == p)
                    &&& (p < size && vfs.ramfs_data.contains_spec(ino) ==> {
                        let n = if old(buf)@.len() <= size - p {
                            old(buf)@.len() as int
                        } else {
                            size - p
                        };
                        &&& r == n
                        &&& final(buf)@ == vfs.ramfs_data.data_of(ino).subrange(p as int, p + n)
                            + old(buf)@.skip(n)
                        &&& final(file).f_pos == p + n
                    })
                }
            },
        },
{
    let ino = match file.f_inode {
        Some(ino) => ino,
        None => {
            return -1;
        },
    };
    let ii = match vfs.find_inode(ino) {
        Some(x) => x,
        None => {
            return -1;
        },
    };
    proof {
        vfs.lemma_inode_idx(ino, ii as int);
    }
    let fops = match vfs.inodes[ii].file_operations {
        Some(fops) => fops,
        None => {
            return -1;
        },
    };
    match fops.read {
        Some(FileOpImpl::Ramfs) => {
            let mut p: u64 = file.f_pos;
            let r = crate::fs::ramfs::ramfs_read(vfs, ino, &mut p, buf);
            file.f_pos = p;
            r
        },
        None => -1,
    }
}

/// Writes `buf` to the file's inode at the file's position, growing the
/// backing buffer and the recorded size as needed, and advances the position
/// past the written bytes. Returns the count written, or -1 when the file
/// has no inode, the inode is missing, or it carries no write operation.
pub fn write_file(vfs: &mut Vfs, file: &mut File, buf: &[u8]) -> (r: isize)
    requires
        old(vfs).wf(),
        old(file).f_pos + buf@.len() <= usize::MAX,
        buf@.len() <= isize::MAX,
    ensures
        final(vfs).wf(),
        final(file).f_inode == old(file).f_inode,
        final(file).f_mode == old(file).f_mode,
        match old(file).f_inode {
            None => r == -1 && *final(vfs) == *old(vfs) && final(file).f_pos == old(file).f_pos,
            Some(ino) => {
                if !old(vfs).ino_in_table(ino) {
                    r == -1 && *final(vfs) == *old(vfs) && final(file).f_pos == old(file).f_pos
                } else if old(vfs).inode_at(ino).file_operations is None || old(vfs).inode_at(
                    ino,
                ).file_operations.unwrap().write is None {
                    r == -1 && *final(vfs) == *old(vfs) && final(file).f_pos == old(file).f_pos
                } else {
                    let idx = old(vfs).inode_idx(ino);
                    let oldino = old(vfs).inodes@[idx];
                    let p = old(file).f_pos;
                    let newsize = if p + buf@.len() > oldino.i_size {
                        (p + buf@.len()) as u64
                    } else {
                        oldino.i_size
                    };
                    &&& r == buf@.len()
                    &&& final(file).f_pos == p + buf@.len()
                    &&& old(vfs).same_tree(*final(vfs))
                    &&& final(vfs).inodes@ == old(vfs).inodes@.update(
                        idx,
                        Inode { i_size: newsize, ..oldino },
                    )
                    &&& final(vfs).ramfs_data.contains_spec(ino)
                    &&& final(vfs).ramfs_data.data_of(ino) == crate::fs::ramfs::write_bytes(
                        crate::fs::ramfs::stored_data(old(vfs).ramfs_data, ino),
                        p as nat,
                        buf@,
                    )
                    &&& (forall|k: u64|
                        k != ino ==> #[trigger] final(vfs).ramfs_data.contains_spec(k) == old(
                            vfs,
                        ).ramfs_data.contains_spec(k))
                    &&& (forall|k: u64|
                        k != ino && old(vfs).ramfs_data.contains_spec(k)
                            ==> #[trigger] final(vfs).ramfs_data.data_of(k) == old(
                            vfs,
                        ).ramfs_data.data_of(k))
                }
            },
        },
{
    let ino = match file.f_inode {
        Some(ino) => ino,
        None => {
            return -1;
        },
    };
    let ii = match vfs.find_inode(ino) {
        Some(x) => x,
        None => {
            return -1;
        },
    };
    proof {
        vfs.lemma_inode_idx(ino, ii as int);
    }
    let fops = match vfs.inodes[ii].file_operations {
        Some(fops) => fops,
        None => {
            return -1;
        },
    };
    match fops.write {
        Some(FileOpImpl::Ramfs) => {
            let mut p: u64 = file.f_pos;
            let r = crate::fs::ramfs::ramfs_write(vfs, ino, &mut p, buf);
            file.f_pos = p;
            r
        },
        None => -1,
    }
}

/// Closes a file: runs the inode's release operation when present and
/// destroys the cursor. The in-memory driver keeps the bytes.
pub fn close_file(vfs: &mut Vfs, file: File)
    requires
        old(vfs).wf(),
    ensures
        *final(vfs) == *old(vfs),
{
    let ino = match file.f_inode {
        Some(ino) => ino,
        None => {
            return ;
        },
    };
    let ii = match vfs.find_inode(ino) {
        Some(x) => x,
        None => {
            return ;
        },
    };
    proof {
        vfs.lemma_inode_idx(ino, ii as int);
    }
    match vfs.inodes[ii].file_operations {
        Some(fops) => {
            match fops.release {
                Some(FileOpImpl::Ramfs) => {
                    let _ = crate::fs::ramfs::ramfs_release(vfs, ino);
                },
                None => {},
            }
        },
        None => {},
    }
}

} // verus!

verus! {

/// Descending through a concatenated component list is descending through
/// its first part, then its second from wherever the first part landed.
pub proof fn lemma_descend_append(vfs: Vfs, d: int, a: Seq<Seq<u8>>, b: Seq<Seq<u8>>)
    ensures
        descend(vfs, d, a + b) == match descend(vfs, d, a) {
            Some(q) => descend(vfs, q, b),
            None => None::<int>,
        },
    decreases a.len(),
{
    if a.len() == 0 {
        assert(a + b =~= b);
    } else {
        assert((a + b).len() > 0);
        assert((a + b).first() == a.first());
        assert((a + b).drop_first() =~= a.drop_first() + b);
        match child_named(vfs, d, a.first()) {
            Some(c) => {
                lemma_descend_append(vfs, c, a.drop_first(), b);
            },
            None => {},
        }
    }
}

/// The component names along a reachable dentry's parent chain are all legal
/// path components, and descending them from the root lands back on the
/// dentry.
pub proof fn lemma_path_names_resolve(vfs: Vfs, d: int)
    requires
        vfs.wf(),
        vfs.root_dentry is Some,
        reachable(vfs, d),
    ensures
        descend(vfs, vfs.root_dentry.unwrap() as int, path_names(vfs, d)) == Some(d),
        forall|i: int|
            0 <= i < path_names(vfs, d).len() ==> crate::fs::path::valid_component(
                #[trigger] path_names(vfs, d)[i],
            ),
    decreases d,
{
    let root = vfs.root_dentry.unwrap() as int;
    assert(0 <= d < vfs.dentries@.len());
    assert(d <= usize::MAX) by {
        assert(vfs.dentries@.len() == vstd::std_specs::vec::spec_vec_len(&vfs.dentries));
    }
    if vfs.root_dentry == Some(d as usize) {
        assert(path_names(vfs, d) =~= Seq::<Seq<u8>>::empty());
        assert(descend(vfs, root, Seq::<Seq<u8>>::empty()) == Some(root));
        assert((d as usize) as int == d);
        assert(root == d);
    } else {
        assert(vfs.dentry_wf(d));
        let p = vfs.dentries@[d].d_parent.unwrap();
        assert(p < d && reachable(vfs, p as int));
        lemma_path_names_resolve(vfs, p as int);
        let names_p = path_names(vfs, p as int);
        let name_d = vfs.dentries@[d].d_name@;
        assert(path_names(vfs, d) == names_p.push(name_d));
        assert(crate::fs::path::valid_component(name_d));
        assert forall|i: int| 0 <= i < path_names(vfs, d).len() implies
            crate::fs::path::valid_component(#[trigger] path_names(vfs, d)[i]) by {
            if i < names_p.len() {
                assert(path_names(vfs, d)[i] == names_p[i]);
            } else {
                assert(path_names(vfs, d)[i] == name_d);
            }
        }
        // The parent's children map sends the name straight back to `d`.
        assert(vfs.dentry_wf(p as int));
        assert(vfs.dentries@[p as int].d_subdirs@.contains(d as usize));
        let subs = vfs.dentries@[p as int].d_subdirs@;
        let k = choose|k: int| 0 <= k < subs.len() && subs[k] == d as usize;
        lemma_child_named_at(vfs, p as int, k);
        assert(subs[k] == d as usize);
        assert((d as usize) as int == d);
        assert(vfs.dentries@[subs[k] as int].d_name@ == name_d);
        assert(child_named(vfs, p as int, name_d) == Some(d));
        assert(names_p.push(name_d) =~= names_p + seq![name_d]);
        lemma_descend_append(vfs, root, names_p, seq![name_d]);
        assert(seq![name_d].len() == 1);
        assert(seq![name_d].first() == name_d);
        assert(seq![name_d].drop_first() =~= Seq::<Seq<u8>>::empty());
        assert(descend(vfs, d, Seq::<Seq<u8>>::empty()) == Some(d));
        assert(descend(vfs, p as int, seq![name_d]) == Some(d));
    }
}

/// Every dentry reachable from the root round-trips through its full path:
/// the path begins with the separator, splits into the dentry's component
/// names (each non-empty and separator-free), and descending those
/// components from the root leads back to the same dentry.
pub proof fn lemma_full_path_round_trip(vfs: Vfs, d: int)
    requires
        vfs.wf(),
        vfs.root_dentry is Some,
        reachable(vfs, d),
    ensures
        full_path_spec(vfs, d).len() > 0,
        full_path_spec(vfs, d)[0] == 47u8,
        forall|i: int|
            0 <= i < path_names(vfs, d).len() ==> crate::fs::path::valid_component(
                #[trigger] path_names(vfs, d)[i],
            ),
        descend(
            vfs,
            vfs.root_dentry.unwrap() as int,
            crate::fs::path::split_path(full_path_spec(vfs, d)),
        ) == Some(d),
{
    lemma_path_names_resolve(vfs, d);
    let root = vfs.root_dentry.unwrap() as int;
    let names = path_names(vfs, d);
    if names.len() == 0 {
        // Only the root's own chain is empty.
        assert(vfs.root_dentry == Some(d as usize)) by {
            if vfs.root_dentry != Some(d as usize) {
                assert(reachable(vfs, d));
                let p = vfs.dentries@[d].d_parent.unwrap();
                assert(0 <= (p as int) < d);
                assert(path_names(vfs, d) == path_names(vfs, p as int).push(
                    vfs.dentries@[d].d_name@,
                ));
                assert(path_names(vfs, d).len() > 0);
            }
        }
        assert(0 <= d < vfs.dentries@.len());
        assert(d <= usize::MAX) by {
            assert(vfs.dentries@.len() == vstd::std_specs::vec::spec_vec_len(&vfs.dentries));
        }
        assert((d as usize) as int == d);
        assert(full_path_spec(vfs, d) == seq![47u8]);
        assert(seq![47u8].drop_first() =~= Seq::<u8>::empty());
        assert(crate::fs::path::split_path(Seq::<u8>::empty()) =~= Seq::<Seq<u8>>::empty());
        assert(seq![47u8][0] == 47u8);
        assert(crate::fs::path::split_path(seq![47u8]) =~= Seq::<Seq<u8>>::empty());
        assert(descend(vfs, root, Seq::<Seq<u8>>::empty()) == Some(root));
    } else {
        crate::fs::path::lemma_split_join(names);
        assert(full_path_spec(vfs, d) == crate::fs::path::join_path(names));
        assert(crate::fs::path::join_path(names)[0] == 47u8);
        assert(crate::fs::path::split_path(full_path_spec(vfs, d)) == names);
    }
}

} // verus!
