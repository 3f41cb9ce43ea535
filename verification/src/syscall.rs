//! The syscall surface: MSR programming values for the fast-syscall path,
//! the user-memory access discipline, the numbered dispatch, and the per-call
//! handlers. The ring-transition stub itself is assembly outside this crate;
//! it saves the register bank as a [`TrapFrame`](crate::task::TrapFrame),
//! records its address, and calls the dispatcher.

use crate::fs::file::File;
use crate::fs::vfs::{descend, open_file, read_file, resolve_path, write_file, Vfs};
use crate::task::{getppid, TaskTable, TrapFrame, FIRST_FD};
use crate::types::FMode;
use vstd::prelude::*;

verus! {

/// MSR number of the STAR register (syscall segment bases).
pub const MSR_STAR: u32 = 0xC0000081;

/// MSR number of the LSTAR register (syscall entry point).
pub const MSR_LSTAR: u32 = 0xC0000082;

/// MSR number of the EFER register.
pub const MSR_EFER: u32 = 0xC0000080;

/// MSR number of the FMASK register (rflags cleared on entry).
pub const MSR_FMASK: u32 = 0xC0000084;

/// MSR number of the KERNEL_GS_BASE register (per-CPU data pointer).
pub const MSR_KERNEL_GS_BASE: u32 = 0xC0000102;

/// The rflags bits FMASK clears on syscall entry: IF and TF.
pub const FMASK_VALUE: u64 = 0x0300;

/// The syscall-extension enable bit of EFER.
pub const EFER_SCE: u64 = 1;

/// The five MSR values that switch the fast-syscall path on.
#[derive(Clone, Copy, PartialEq, Eq, Structural, Debug)]
pub struct MsrSettings {
    pub star: u64,
    pub lstar: u64,
    pub fmask: u64,
    pub efer: u64,
    pub kernel_gs_base: u64,
}

/// Computes the MSR values that enable the fast-syscall path: STAR carries
/// the ring-0 and ring-3 selector bases, LSTAR the entry stub's address,
/// FMASK masks IF and TF, EFER gains the enable bit, and KERNEL_GS_BASE
/// points at the per-CPU block whose first two fields are the user-stack
/// scratch slot and the kernel stack top.
pub fn configure_syscalls(
    kernel_code_selector: u16,
    user_code_selector: u16,
    handler_addr: u64,
    per_cpu_addr: u64,
    old_efer: u64,
) -> (r: MsrSettings)
    requires
        user_code_selector & 0xFFFC >= 16,
    ensures
        r.star == (((kernel_code_selector & 0xFFFC) as u64) | ((((user_code_selector & 0xFFFC)
            - 16) as u64) << 16)) << 32,
        r.lstar == handler_addr,
        r.fmask == FMASK_VALUE,
        r.efer == old_efer | EFER_SCE,
        r.kernel_gs_base == per_cpu_addr,
{
    let syscall_cs_ss_base: u32 = (kernel_code_selector & 0xFFFC) as u32;
    let sysret_cs_ss_base: u32 = ((user_code_selector & 0xFFFC) - 16) as u32;
    proof {
        let u = user_code_selector;
        assert(u & 0xFFFC <= 0xFFFC) by (bit_vector);
        let kk = kernel_code_selector;
        assert(kk & 0xFFFC <= 0xFFFC) by (bit_vector);
        let s: u32 = sysret_cs_ss_base;
        assert(s <= 0xFFFC ==> (s << 16) <= 0xFFFC0000) by (bit_vector);
        assert(((syscall_cs_ss_base as u64) | ((sysret_cs_ss_base as u64) << 16)) << 32 == (((
        kernel_code_selector & 0xFFFC) as u64) | ((((user_code_selector & 0xFFFC) - 16) as u64)
            << 16)) << 32) by (bit_vector)
            requires
                syscall_cs_ss_base == (kernel_code_selector & 0xFFFC) as u32,
                sysret_cs_ss_base as u64 == ((user_code_selector & 0xFFFC) - 16) as u64,
                user_code_selector & 0xFFFC >= 16,
        ;
    }
    let star_low: u64 = (syscall_cs_ss_base as u64) | ((sysret_cs_ss_base as u64) << 16);
    let star: u64 = star_low << 32;
    MsrSettings {
        star,
        lstar: handler_addr,
        fmask: FMASK_VALUE,
        efer: old_efer | EFER_SCE,
        kernel_gs_base: per_cpu_addr,
    }
}

/// The in-scope kernel state the syscall handlers act on: the VFS, the task
/// registry, and the kernel log that writes to the standard descriptors feed.
#[verifier::ext_equal]
pub struct Kernel {
    pub vfs: Vfs,
    pub tasks: TaskTable,
    /// Bytes written to file descriptors 1 and 2.
    pub klog: Vec<u8>,
}

impl Kernel {
    /// Both subsystems are coherent.
    pub open spec fn wf(self) -> bool {
        &&& self.vfs.wf()
        &&& self.tasks.wf()
    }

    /// A fresh kernel state: empty VFS, empty task registry, empty log.
    pub fn new() -> (r: Kernel)
        ensures
            r.wf(),
            r.vfs.root_dentry is None,
            r.vfs.filesystems@.len() == 0,
            r.tasks.tasks@.len() == 0,
            r.tasks.current == 0,
            r.klog@.len() == 0,
    {
        Kernel { vfs: Vfs::new(), tasks: TaskTable::new(), klog: Vec::new() }
    }
}

/// Longest path a syscall accepts, terminator included.
pub const PATH_MAX: u64 = 256;

/// The length of the NUL-terminated string at `addr`, scanning at most
/// `fuel` bytes and never past the end of memory.
pub open spec fn cstr_len(mem: Seq<u8>, addr: int, fuel: nat) -> Option<nat>
    decreases fuel,
{
    if fuel == 0 {
        None::<nat>
    } else if addr < 0 || addr >= mem.len() {
        None::<nat>
    } else if mem[addr] == 0 {
        Some(0nat)
    } else {
        match cstr_len(mem, addr + 1, (fuel - 1) as nat) {
            Some(n) => Some(n + 1),
            None => None::<nat>,
        }
    }
}

/// A task's view of memory: a flat byte range starting at address 0. The
/// handlers touch it only through bounds-checked reads and writes, which is
/// the discipline that keeps user pointers from faulting the kernel.
#[verifier::ext_equal]
pub struct UserMemory {
    pub bytes: Vec<u8>,
}

impl UserMemory {
    /// Copies `count` bytes out of user memory, or nothing when the range
    /// leaves the address space.
    pub fn read_bytes(&self, addr: u64, count: u64) -> (r: Option<Vec<u8>>)
        ensures
            match r {
                Some(v) => addr + count <= self.bytes@.len() && v@ == self.bytes@.subrange(
                    addr as int,
                    addr + count,
                ),
                None => addr + count > self.bytes@.len(),
            },
    {
        let len = self.bytes.len();
        if addr > len as u64 || count > len as u64 - addr {
            return None;
        }
        let start = addr as usize;
        let n = count as usize;
        let mut v: Vec<u8> = Vec::new();
        let mut j: usize = 0;
        while j < n
            invariant
                len == self.bytes@.len(),
                start + n <= len,
                j <= n,
                v@ == self.bytes@.subrange(start as int, start + j),
            decreases n - j,
        {
            v.push(self.bytes[start + j]);
            proof {
                assert(v@ =~= self.bytes@.subrange(start as int, start + j + 1));
            }
            j = j + 1;
        }
        Some(v)
    }

    /// Copies `data` into user memory at `addr`, reporting whether the range
    /// fit; nothing changes when it does not.
    pub fn write_bytes(&mut self, addr: u64, data: &[u8]) -> (r: bool)
        ensures
            r == (addr + data@.len() <= old(self).bytes@.len()),
            final(self).bytes@.len() == old(self).bytes@.len(),
            r ==> forall|i: int|
                0 <= i < old(self).bytes@.len() ==> final(self).bytes@[i] == (if addr <= i < addr
                    + data@.len() {
                    data@[i - addr]
                } else {
                    old(self).bytes@[i]
                }),
            !r ==> final(self).bytes@ == old(self).bytes@,
    {
        let len = self.bytes.len();
        if addr > len as u64 || data.len() as u64 > len as u64 - addr {
            return false;
        }
        let start = addr as usize;
        let n = data.len();
        let mut j: usize = 0;
        while j < n
            invariant
                len == self.bytes@.len(),
                start + n <= len,
                n == data@.len(),
                j <= n,
                self.bytes@.len() == old(self).bytes@.len(),
                forall|i: int| start <= i < start + j ==> self.bytes@[i] == data@[i - start],
                forall|i: int|
                    0 <= i < self.bytes@.len() && !(start <= i < start + j) ==> self.bytes@[i]
                        == old(self).bytes@[i],
            decreases n - j,
        {
            let b = data[j];
            self.bytes[start + j] = b;
            j = j + 1;
        }
        true
    }

    /// Reads the NUL-terminated path at `addr`: at most [`PATH_MAX`] bytes
    /// are scanned, the terminator must lie inside memory, and the empty
    /// path is rejected.
    pub fn read_cstr(&self, addr: u64) -> (r: Option<Vec<u8>>)
        ensures
            match r {
                Some(v) => {
                    &&& cstr_len(self.bytes@, addr as int, PATH_MAX as nat) == Some(
                        v@.len() as nat,
                    )
                    &&& 1 <= v@.len() < PATH_MAX
                    &&& v@ == self.bytes@.subrange(addr as int, addr + v@.len())
                },
                None => cstr_len(self.bytes@, addr as int, PATH_MAX as nat) is None || cstr_len(
                    self.bytes@,
                    addr as int,
                    PATH_MAX as nat,
                ) == Some(0nat),
            },
    {
        let len = self.bytes.len();
        let mut v: Vec<u8> = Vec::new();
        let mut j: u64 = 0;
        while j < PATH_MAX
            invariant
                j <= PATH_MAX,
                v@.len() == j,
                addr + j <= u64::MAX,
                len == self.bytes@.len(),
                forall|t: int| 0 <= t < j ==> addr + t < len && #[trigger] self.bytes@[addr + t] != 0,
                forall|t: int| 0 <= t < j ==> v@[t] == self.bytes@[addr + t],
                cstr_len(self.bytes@, addr as int, PATH_MAX as nat) == (match cstr_len(
                    self.bytes@,
                    addr + j,
                    (PATH_MAX - j) as nat,
                ) {
                    Some(n) => Some((n + j) as nat),
                    None => None::<nat>,
                }),
            decreases PATH_MAX - j,
        {
            if len == 0 || addr > len as u64 - 1 || j > (len as u64 - 1) - addr {
                // The scan fell off the end of memory before a terminator.
                proof {
                    assert(addr + j >= len);
                    assert(cstr_len(self.bytes@, addr + j, (PATH_MAX - j) as nat) is None);
                }
                return None;
            }
            let b = self.bytes[(addr + j) as usize];
            if b == 0 {
                proof {
                    assert(cstr_len(self.bytes@, addr + j, (PATH_MAX - j) as nat) == Some(0nat));
                }
                if v.len() == 0 {
                    return None;
                }
                proof {
                    assert(v@ =~= self.bytes@.subrange(addr as int, addr + j));
                }
                return Some(v);
            }
            v.push(b);
            proof {
                assert(cstr_len(self.bytes@, addr + j, (PATH_MAX - j) as nat) == (match cstr_len(
                    self.bytes@,
                    addr + j + 1,
                    (PATH_MAX - j - 1) as nat,
                ) {
                    Some(n) => Some((n + 1) as nat),
                    None => None::<nat>,
                }));
                assert(v@ =~= self.bytes@.subrange(addr as int, addr + j + 1));
            }
            j = j + 1;
        }
        // No terminator within the cap: the path is too long.
        proof {
            assert(cstr_len(self.bytes@, addr + PATH_MAX, 0nat) is None);
        }
        None
    }
}

} // verus!

verus! {

/// Whether a byte is a UTF-8 continuation byte.
pub open spec fn is_cont(b: u8) -> bool {
    0x80 <= b <= 0xBF
}

/// Whether `s` is well-formed UTF-8: ASCII, or the two- to four-byte forms
/// in shortest encoding with the surrogate range excluded — exactly the
/// strings a str accepts.
pub open spec fn is_utf8(s: Seq<u8>) -> bool
    decreases s.len(),
{
    if s.len() == 0 {
        true
    } else {
        let b0 = s[0];
        if b0 < 0x80 {
            is_utf8(s.skip(1))
        } else if 0xC2 <= b0 && b0 <= 0xDF {
            if s.len() >= 2 && is_cont(s[1]) {
                is_utf8(s.skip(2))
            } else {
                false
            }
        } else if b0 == 0xE0 {
            if s.len() >= 3 && 0xA0 <= s[1] && s[1] <= 0xBF && is_cont(s[2]) {
                is_utf8(s.skip(3))
            } else {
                false
            }
        } else if 0xE1 <= b0 && b0 <= 0xEC {
            if s.len() >= 3 && is_cont(s[1]) && is_cont(s[2]) {
                is_utf8(s.skip(3))
            } else {
                false
            }
        } else if b0 == 0xED {
            if s.len() >= 3 && 0x80 <= s[1] && s[1] <= 0x9F && is_cont(s[2]) {
                is_utf8(s.skip(3))
            } else {
                false
            }
        } else if 0xEE <= b0 && b0 <= 0xEF {
            if s.len() >= 3 && is_cont(s[1]) && is_cont(s[2]) {
                is_utf8(s.skip(3))
            } else {
                false
            }
        } else if b0 == 0xF0 {
            if s.len() >= 4 && 0x90 <= s[1] && s[1] <= 0xBF && is_cont(s[2]) && is_cont(s[3]) {
                is_utf8(s.skip(4))
            } else {
                false
            }
        } else if 0xF1 <= b0 && b0 <= 0xF3 {
            if s.len() >= 4 && is_cont(s[1]) && is_cont(s[2]) && is_cont(s[3]) {
                is_utf8(s.skip(4))
            } else {
                false
            }
        } else if b0 == 0xF4 {
            if s.len() >= 4 && 0x80 <= s[1] && s[1] <= 0x8F && is_cont(s[2]) && is_cont(s[3]) {
                is_utf8(s.skip(4))
            } else {
                false
            }
        } else {
            false
        }
    }
}

/// Whether a byte is a UTF-8 continuation byte.
fn is_cont_byte(b: u8) -> (r: bool)
    ensures
        r == is_cont(b),
{
    0x80 <= b && b <= 0xBF
}

/// Checks `bytes` for well-formed UTF-8, as [`is_utf8`] describes.
pub fn utf8_valid(bytes: &[u8]) -> (r: bool)
    ensures
        r == is_utf8(bytes@),
{
    let n = bytes.len();
    let mut i: usize = 0;
    proof {
        assert(bytes@.skip(0) =~= bytes@);
    }
    while i < n
        invariant
            n == bytes@.len(),
            i <= n,
            is_utf8(bytes@) == is_utf8(bytes@.skip(i as int)),
        decreases n - i,
    {
        let b0 = bytes[i];
        let step: usize = if b0 < 0x80 {
            1
        } else if 0xC2 <= b0 && b0 <= 0xDF {
            if n - i < 2 || !is_cont_byte(bytes[i + 1]) {
                return false;
            }
            2
        } else if b0 == 0xE0 {
            if n - i < 3 || !(0xA0 <= bytes[i + 1] && bytes[i + 1] <= 0xBF) || !is_cont_byte(
                bytes[i + 2],
            ) {
                return false;
            }
            3
        } else if 0xE1 <= b0 && b0 <= 0xEC {
            if n - i < 3 || !is_cont_byte(bytes[i + 1]) || !is_cont_byte(bytes[i + 2]) {
                return false;
            }
            3
        } else if b0 == 0xED {
            if n - i < 3 || !(0x80 <= bytes[i + 1] && bytes[i + 1] <= 0x9F) || !is_cont_byte(
                bytes[i + 2],
            ) {
                return false;
            }
            3
        } else if 0xEE <= b0 && b0 <= 0xEF {
            if n - i < 3 || !is_cont_byte(bytes[i + 1]) || !is_cont_byte(bytes[i + 2]) {
                return false;
            }
            3
        } else if b0 == 0xF0 {
            if n - i < 4 || !(0x90 <= bytes[i + 1] && bytes[i + 1] <= 0xBF) || !is_cont_byte(
                bytes[i + 2],
            ) || !is_cont_byte(bytes[i + 3]) {
                return false;
            }
            4
        } else if 0xF1 <= b0 && b0 <= 0xF3 {
            if n - i < 4 || !is_cont_byte(bytes[i + 1]) || !is_cont_byte(bytes[i + 2])
                || !is_cont_byte(bytes[i + 3]) {
                return false;
            }
            4
        } else if b0 == 0xF4 {
            if n - i < 4 || !(0x80 <= bytes[i + 1] && bytes[i + 1] <= 0x8F) || !is_cont_byte(
                bytes[i + 2],
            ) || !is_cont_byte(bytes[i + 3]) {
                return false;
            }
            4
        } else {
            return false;
        };
        proof {
            assert(bytes@.skip(i as int).skip(step as int) =~= bytes@.skip(i + step));
        }
        i = i + step;
    }
    proof {
        assert(bytes@.skip(n as int) =~= Seq::<u8>::empty());
    }
    true
}

/// The all-ones error return of the syscall ABI, -1 in the signed view.
pub const SYSCALL_ERROR: u64 = u64::MAX;

/// The access mode `sys_open` derives from the low two bits of `flags`:
/// read-only, write-only, read-write, and anything else read-only.
pub open spec fn open_fmode(flags: u64) -> FMode {
    if flags & 3 == 0 {
        FMode(0o1)
    } else if flags & 3 == 1 {
        FMode(0o2)
    } else if flags & 3 == 2 {
        FMode(0o3)
    } else {
        FMode(0o1)
    }
}

/// The path bytes `sys_open` reads from user memory at `addr`, when a
/// non-empty NUL-terminated string below [`PATH_MAX`] bytes lies there.
pub open spec fn user_path_at(um: UserMemory, addr: u64) -> Option<Seq<u8>> {
    match cstr_len(um.bytes@, addr as int, PATH_MAX as nat) {
        Some(n) => if 1 <= n {
            Some(um.bytes@.subrange(addr as int, addr + n))
        } else {
            None::<Seq<u8>>
        },
        None => None::<Seq<u8>>,
    }
}

/// What `sys_close` does: descriptors below [`FIRST_FD`] and unknown
/// descriptors are refused with the error return; a held descriptor leaves
/// the table, its file is released, and 0 comes back. Nothing else changes.
pub open spec fn sys_close_rel(pre: Kernel, post: Kernel, fd: u64, r: u64) -> bool {
    &&& post.vfs == pre.vfs
    &&& post.klog == pre.klog
    &&& post.tasks.current == pre.tasks.current
    &&& post.tasks.next_pid == pre.tasks.next_pid
    &&& if fd < FIRST_FD || !pre.tasks.pid_in_table(pre.tasks.current) || !pre.tasks.task_at(
        pre.tasks.current,
    ).fd_in_table(fd) {
        &&& r == SYSCALL_ERROR
        &&& post.tasks == pre.tasks
    } else {
        let ti = pre.tasks.task_idx(pre.tasks.current);
        let t = pre.tasks.tasks@[ti];
        let nt = post.tasks.tasks@[ti];
        &&& r == 0
        &&& post.tasks.tasks@.len() == pre.tasks.tasks@.len()
        &&& (forall|j: int|
            0 <= j < pre.tasks.tasks@.len() && j != ti ==> post.tasks.tasks@[j]
                == pre.tasks.tasks@[j])
        &&& nt.pid == t.pid
        &&& nt.ppid == t.ppid
        &&& nt.trap_frame == t.trap_frame
        &&& nt.page_table_frame == t.page_table_frame
        &&& nt.next_fd == t.next_fd
        &&& nt.file_descriptors@.len() + 1 == t.file_descriptors@.len()
        &&& !nt.fd_in_table(fd)
        &&& (forall|g: u64| g != fd ==> #[trigger] nt.fd_in_table(g) == t.fd_in_table(g))
        &&& (forall|g: u64|
            g != fd && t.fd_in_table(g) ==> #[trigger] nt.file_at(g) == t.file_at(g))
    }
}

/// Closes a file descriptor: refuses the standard descriptors 0 through 2
/// and unknown ones; otherwise removes the slot and releases the file.
pub fn sys_close(k: &mut Kernel, fd: u64) -> (r: u64)
    requires
        old(k).wf(),
    ensures
        final(k).wf(),
        sys_close_rel(*old(k), *final(k), fd, r),
{
    if fd < FIRST_FD {
        return SYSCALL_ERROR;
    }
    let ti = match crate::task::get_current_task(&k.tasks) {
        Some(i) => i,
        None => {
            return SYSCALL_ERROR;
        },
    };
    proof {
        k.tasks.lemma_task_idx(k.tasks.current, ti as int);
    }
    let fi = match k.tasks.tasks[ti].find_fd(fd) {
        Some(i) => i,
        None => {
            return SYSCALL_ERROR;
        },
    };
    let ghost pre_t = k.tasks.tasks@[ti as int];
    proof {
        pre_t.lemma_fd_idx(fd, fi as int);
    }
    let entry = k.tasks.tasks[ti].file_descriptors.swap_remove(fi);
    crate::fs::vfs::close_file(&mut k.vfs, entry.1);
    proof {
        let t = pre_t;
        let nt = k.tasks.tasks@[ti as int];
        let n = nt.file_descriptors@.len() as int;
        assert(nt.fds_wf()) by {
            assert forall|a: int, b: int| 0 <= a < b < n implies nt.file_descriptors@[a].0
                != nt.file_descriptors@[b].0 by {
                let oa: int = if a == fi as int { n } else { a };
                let ob: int = if b == fi as int { n } else { b };
                assert(nt.file_descriptors@[a] == t.file_descriptors@[oa]);
                assert(nt.file_descriptors@[b] == t.file_descriptors@[ob]);
            }
            assert forall|a: int| 0 <= a < n implies FIRST_FD <= (
            #[trigger] nt.file_descriptors@[a]).0 < nt.next_fd by {
                let oa: int = if a == fi as int { n } else { a };
                assert(nt.file_descriptors@[a] == t.file_descriptors@[oa]);
            }
        }
        assert(!nt.fd_in_table(fd)) by {
            if nt.fd_in_table(fd) {
                let w = nt.fd_idx(fd);
                let ow: int = if w == fi as int { n } else { w };
                assert(t.file_descriptors@[ow].0 == fd);
                t.lemma_fd_idx(fd, ow);
            }
        }
        assert forall|g: u64| g != fd && t.fd_in_table(g) implies #[trigger] nt.file_at(g)
            == t.file_at(g) && nt.fd_in_table(g) by {
            let w = t.fd_idx(g);
            t.lemma_fd_idx(g, w);
            assert(w != fi as int) by {
                if w == fi as int {
                    assert(t.file_descriptors@[fi as int].0 == fd);
                }
            }
            if w == n {
                assert(nt.file_descriptors@[fi as int] == t.file_descriptors@[n]);
                nt.lemma_fd_idx(g, fi as int);
            } else {
                assert(nt.file_descriptors@[w] == t.file_descriptors@[w]);
                nt.lemma_fd_idx(g, w);
            }
        }
        assert forall|g: u64| g != fd implies #[trigger] nt.fd_in_table(g) == t.fd_in_table(
            g,
        ) by {
            if nt.fd_in_table(g) {
                let w = nt.fd_idx(g);
                nt.lemma_fd_idx(g, w);
                let ow: int = if w == fi as int { n } else { w };
                assert(nt.file_descriptors@[w] == t.file_descriptors@[ow]);
                t.lemma_fd_idx(g, ow);
            }
            if t.fd_in_table(g) {
                assert(nt.file_at(g) == t.file_at(g) && nt.fd_in_table(g));
            }
        }
        assert forall|j: int| 0 <= j < k.tasks.tasks@.len() implies (
        #[trigger] k.tasks.tasks@[j]).fds_wf() by {
            if j != ti as int {
                assert(old(k).tasks.tasks@[j].fds_wf());
            }
        }
        assert forall|i: int, j: int| 0 <= i < j < k.tasks.tasks@.len() implies k.tasks.tasks@[
        i].pid != k.tasks.tasks@[j].pid by {
            assert(old(k).tasks.tasks@[i].pid == k.tasks.tasks@[i].pid);
            assert(old(k).tasks.tasks@[j].pid == k.tasks.tasks@[j].pid);
        }
        assert forall|i: int| 0 <= i < k.tasks.tasks@.len() implies 1 <= (
        #[trigger] k.tasks.tasks@[i]).pid < crate::task::PID_MAX by {
            assert(old(k).tasks.tasks@[i].pid == k.tasks.tasks@[i].pid);
            assert(1 <= old(k).tasks.tasks@[i].pid < crate::task::PID_MAX);
        }
    }
    0
}

/// The standard descriptors cannot be closed: closing 0, 1, or 2 always
/// yields the error return and changes nothing.
pub proof fn lemma_close_rejects_std_fds(pre: Kernel, post: Kernel, fd: u64, r: u64)
    requires
        sys_close_rel(pre, post, fd, r),
        fd < 3,
    ensures
        r == SYSCALL_ERROR,
        post.tasks == pre.tasks,
{
}

/// Returns the PID of the task the current-task slot names.
pub fn sys_getpid(k: &Kernel) -> (r: u64)
    ensures
        r == k.tasks.current,
{
    crate::task::getpid(&k.tasks)
}

/// Returns the parent PID recorded when the current task was created, or 0
/// when no task carries the current PID.
pub fn sys_getppid(k: &Kernel) -> (r: u64)
    requires
        k.wf(),
    ensures
        r == if k.tasks.pid_in_table(k.tasks.current) {
            k.tasks.task_at(k.tasks.current).ppid
        } else {
            0u64
        },
{
    getppid(&k.tasks)
}

/// Terminates the calling task: the current-task slot is cleared, so the
/// dispatcher never again acts for it and the entry stub, seeing the exit
/// flag, must halt instead of returning to ring 3. The task's record stays
/// in the registry (task records are never freed in scope).
pub fn sys_exit(k: &mut Kernel, _code: u64) -> (r: u64)
    requires
        old(k).wf(),
    ensures
        final(k).wf(),
        r == 42,
        final(k).tasks.current == 0,
        final(k).tasks.tasks@ == old(k).tasks.tasks@,
        final(k).tasks.next_pid == old(k).tasks.next_pid,
        final(k).vfs == old(k).vfs,
        final(k).klog == old(k).klog,
{
    k.tasks.current = 0;
    proof {
        assert forall|i: int| 0 <= i < k.tasks.tasks@.len() implies (
        #[trigger] k.tasks.tasks@[i]).fds_wf() by {
            assert(old(k).tasks.tasks@[i].fds_wf());
        }
    }
    42
}

} // verus!

verus! {

/// One task's open file at `fd` replaced by `nf`; everything else identical.
pub open spec fn task_file_updated(
    pre: TaskTable,
    post: TaskTable,
    ti: int,
    fd: u64,
    nf: File,
) -> bool {
    let t = pre.tasks@[ti];
    let nt = post.tasks@[ti];
    &&& post.tasks@.len() == pre.tasks@.len()
    &&& (forall|j: int| 0 <= j < pre.tasks@.len() && j != ti ==> post.tasks@[j] == pre.tasks@[j])
    &&& nt.pid == t.pid
    &&& nt.ppid == t.ppid
    &&& nt.trap_frame == t.trap_frame
    &&& nt.page_table_frame == t.page_table_frame
    &&& nt.page_table == t.page_table
    &&& nt.next_fd == t.next_fd
    &&& nt.file_descriptors@ == t.file_descriptors@.update(t.fd_idx(fd), (fd, nf))
    &&& post.current == pre.current
    &&& post.next_pid == pre.next_pid
}

/// What `sys_read` does. Errors (unknown task or descriptor, a count past
/// the signed cap, a user range outside memory, a file without an inode or a
/// read operation) return the error value and change nothing. Otherwise
/// `min(count, size - pos)` bytes of the backing buffer move into user
/// memory at `buf` (0 at end-of-file or with no backing buffer) and the file
/// position advances by the count transferred.
pub open spec fn sys_read_rel(
    pre: Kernel,
    post: Kernel,
    pre_um: UserMemory,
    post_um: UserMemory,
    fd: u64,
    buf: u64,
    count: u64,
    r: u64,
) -> bool {
    let unchanged = post.tasks == pre.tasks && post_um == pre_um;
    &&& post.vfs == pre.vfs
    &&& post.klog == pre.klog
    &&& if !pre.tasks.pid_in_table(pre.tasks.current) {
        r == SYSCALL_ERROR && unchanged
    } else if !pre.tasks.task_at(pre.tasks.current).fd_in_table(fd) {
        r == SYSCALL_ERROR && unchanged
    } else if count > isize::MAX as u64 {
        r == SYSCALL_ERROR && unchanged
    } else if buf + count > pre_um.bytes@.len() {
        r == SYSCALL_ERROR && unchanged
    } else {
        let ti = pre.tasks.task_idx(pre.tasks.current);
        let f = pre.tasks.task_at(pre.tasks.current).file_at(fd);
        match f.f_inode {
            None => r == SYSCALL_ERROR && unchanged,
            Some(ino) => if !pre.vfs.ino_in_table(ino) {
                r == SYSCALL_ERROR && unchanged
            } else if pre.vfs.inode_at(ino).file_operations is None || pre.vfs.inode_at(
                ino,
            ).file_operations.unwrap().read is None {
                r == SYSCALL_ERROR && unchanged
            } else {
                let size = pre.vfs.inode_at(ino).i_size;
                let p = f.f_pos;
                let n: int = if p >= size || !pre.vfs.ramfs_data.contains_spec(ino) {
                    0
                } else if count <= size - p {
                    count as int
                } else {
                    size - p
                };
                &&& r == n
                &&& post_um.bytes@.len() == pre_um.bytes@.len()
                &&& (forall|i: int|
                    0 <= i < pre_um.bytes@.len() ==> post_um.bytes@[i] == (if buf <= i < buf + n {
                        pre.vfs.ramfs_data.data_of(ino)[p + (i - buf)]
                    } else {
                        pre_um.bytes@[i]
                    }))
                &&& task_file_updated(
                    pre.tasks,
                    post.tasks,
                    ti,
                    fd,
                    File { f_pos: (p + n) as u64, ..f },
                )
            },
        }
    }
}

/// Reads from an open file into user memory; see [`sys_read_rel`].
pub fn sys_read(k: &mut Kernel, um: &mut UserMemory, fd: u64, buf: u64, count: u64) -> (r: u64)
    requires
        old(k).wf(),
    ensures
        final(k).wf(),
        sys_read_rel(*old(k), *final(k), *old(um), *final(um), fd, buf, count, r),
{
    let ti = match crate::task::get_current_task(&k.tasks) {
        Some(i) => i,
        None => {
            return SYSCALL_ERROR;
        },
    };
    proof {
        k.tasks.lemma_task_idx(k.tasks.current, ti as int);
    }
    let fi = match k.tasks.tasks[ti].find_fd(fd) {
        Some(i) => i,
        None => {
            return SYSCALL_ERROR;
        },
    };
    let ghost pre_t = k.tasks.tasks@[ti as int];
    proof {
        pre_t.lemma_fd_idx(fd, fi as int);
    }
    if count > isize::MAX as u64 {
        return SYSCALL_ERROR;
    }
    let len = um.bytes.len();
    if buf > len as u64 || count > len as u64 - buf {
        return SYSCALL_ERROR;
    }
    let n_usize = count as usize;
    let mut v: Vec<u8> = Vec::new();
    let mut z: usize = 0;
    while z < n_usize
        invariant
            z <= n_usize,
            v@.len() == z,
        decreases n_usize - z,
    {
        v.push(0);
        z = z + 1;
    }
    let ghost pre_file = pre_t.file_descriptors@[fi as int].1;
    // Establish up front that the read cannot fail, so the file is only
    // touched on the success path.
    let f = k.tasks.tasks[ti].file_descriptors[fi].1;
    let ino = match f.f_inode {
        Some(ino) => ino,
        None => {
            return SYSCALL_ERROR;
        },
    };
    let ii = match k.vfs.find_inode(ino) {
        Some(ii) => ii,
        None => {
            return SYSCALL_ERROR;
        },
    };
    proof {
        k.vfs.lemma_inode_idx(ino, ii as int);
    }
    let fops = match k.vfs.inodes[ii].file_operations {
        Some(fops) => fops,
        None => {
            return SYSCALL_ERROR;
        },
    };
    match fops.read {
        Some(_) => {},
        None => {
            return SYSCALL_ERROR;
        },
    }
    let rr = read_file(&k.vfs, &mut k.tasks.tasks[ti].file_descriptors[fi].1, &mut v);
    let ghost post_file = k.tasks.tasks@[ti as int].file_descriptors@[fi as int].1;
    proof {
        // Putting the (possibly updated) file back in its slot keeps the
        // descriptor keys, so the table stays coherent.
        let t = pre_t;
        let nt = k.tasks.tasks@[ti as int];
        assert(nt.file_descriptors@ =~= t.file_descriptors@.update(
            fi as int,
            (fd, post_file),
        ));
        assert(nt.fds_wf()) by {
            assert forall|a: int, b: int|
                0 <= a < b < nt.file_descriptors@.len() implies nt.file_descriptors@[a].0
                != nt.file_descriptors@[b].0 by {
                assert(nt.file_descriptors@[a].0 == t.file_descriptors@[a].0);
                assert(nt.file_descriptors@[b].0 == t.file_descriptors@[b].0);
            }
            assert forall|a: int| 0 <= a < nt.file_descriptors@.len() implies FIRST_FD <= (
            #[trigger] nt.file_descriptors@[a]).0 < nt.next_fd by {
                assert(nt.file_descriptors@[a].0 == t.file_descriptors@[a].0);
                assert(FIRST_FD <= t.file_descriptors@[a].0 < t.next_fd);
            }
        }
        assert forall|j: int| 0 <= j < k.tasks.tasks@.len() implies (
        #[trigger] k.tasks.tasks@[j]).fds_wf() by {
            if j != ti as int {
                assert(old(k).tasks.tasks@[j].fds_wf());
            }
        }
        assert forall|i: int, j: int| 0 <= i < j < k.tasks.tasks@.len() implies k.tasks.tasks@[
        i].pid != k.tasks.tasks@[j].pid by {
            assert(old(k).tasks.tasks@[i].pid == k.tasks.tasks@[i].pid);
            assert(old(k).tasks.tasks@[j].pid == k.tasks.tasks@[j].pid);
        }
        assert forall|i: int| 0 <= i < k.tasks.tasks@.len() implies 1 <= (
        #[trigger] k.tasks.tasks@[i]).pid < crate::task::PID_MAX by {
            assert(old(k).tasks.tasks@[i].pid == k.tasks.tasks@[i].pid);
            assert(1 <= old(k).tasks.tasks@[i].pid < crate::task::PID_MAX);
        }
        nt.lemma_fd_idx(fd, fi as int);
    }
    if rr < 0 {
        // The checks above rule out every failure of the driver call.
        proof {
            assert(false);
        }
        return SYSCALL_ERROR;
    }
    let n = rr as usize;
    v.truncate(n);
    let ok = um.write_bytes(buf, v.as_slice());
    proof {
        assert(ok);
        assert(task_file_updated(
            old(k).tasks,
            k.tasks,
            ti as int,
            fd,
            File { f_pos: post_file.f_pos, ..pre_file },
        )) by {
            assert(post_file.f_inode == pre_file.f_inode);
            assert(post_file.f_mode == pre_file.f_mode);
            assert(post_file =~= (File { f_pos: post_file.f_pos, ..pre_file }));
            assert(old(k).tasks.task_idx(old(k).tasks.current) == ti as int);
            assert(old(k).tasks.task_at(old(k).tasks.current).fd_idx(fd) == fi as int);
        }
    }
    rr as u64
}

/// What `sys_write` does. Writes to descriptors 1 and 2 append the user
/// bytes to the kernel log and never fail once the range is readable. Other
/// descriptors go through the VFS: the bytes land in the backing buffer at
/// the file position, size and position advance, and the count comes back.
/// Errors (unreadable user range, unknown task or descriptor, counts past
/// the machine caps, a file without an inode or a write operation) return
/// the error value and change nothing.
pub open spec fn sys_write_rel(
    pre: Kernel,
    post: Kernel,
    um: UserMemory,
    fd: u64,
    buf: u64,
    count: u64,
    r: u64,
) -> bool {
    if fd == 1 || fd == 2 {
        &&& post.tasks == pre.tasks
        &&& post.vfs == pre.vfs
        &&& if buf + count > um.bytes@.len() {
            r == SYSCALL_ERROR && post.klog == pre.klog
        } else {
            r == count && post.klog@ == pre.klog@ + um.bytes@.subrange(buf as int, buf + count)
        }
    } else {
        let unchanged = post.tasks == pre.tasks && post.vfs == pre.vfs;
        &&& post.klog == pre.klog
        &&& if !pre.tasks.pid_in_table(pre.tasks.current) {
            r == SYSCALL_ERROR && unchanged
        } else if !pre.tasks.task_at(pre.tasks.current).fd_in_table(fd) {
            r == SYSCALL_ERROR && unchanged
        } else if buf + count > um.bytes@.len() {
            r == SYSCALL_ERROR && unchanged
        } else if count > isize::MAX as u64 {
            r == SYSCALL_ERROR && unchanged
        } else {
            let ti = pre.tasks.task_idx(pre.tasks.current);
            let f = pre.tasks.task_at(pre.tasks.current).file_at(fd);
            let data = um.bytes@.subrange(buf as int, buf + count);
            if f.f_pos + count > usize::MAX {
                r == SYSCALL_ERROR && unchanged
            } else {
                match f.f_inode {
                    None => r == SYSCALL_ERROR && unchanged,
                    Some(ino) => if !pre.vfs.ino_in_table(ino) {
                        r == SYSCALL_ERROR && unchanged
                    } else if pre.vfs.inode_at(ino).file_operations is None || pre.vfs.inode_at(
                        ino,
                    ).file_operations.unwrap().write is None {
                        r == SYSCALL_ERROR && unchanged
                    } else {
                        let idx = pre.vfs.inode_idx(ino);
                        let oldino = pre.vfs.inodes@[idx];
                        let p = f.f_pos;
                        let newsize = if p + count > oldino.i_size {
                            (p + count) as u64
                        } else {
                            oldino.i_size
                        };
                        &&& r == count
                        &&& pre.vfs.same_tree(post.vfs)
                        &&& post.vfs.inodes@ == pre.vfs.inodes@.update(
                            idx,
                            crate::fs::inode::Inode { i_size: newsize, ..oldino },
                        )
                        &&& post.vfs.ramfs_data.contains_spec(ino)
                        &&& post.vfs.ramfs_data.data_of(ino) == crate::fs::ramfs::write_bytes(
                            crate::fs::ramfs::stored_data(pre.vfs.ramfs_data, ino),
                            p as nat,
                            data,
                        )
                        &&& (forall|g: u64|
                            g != ino ==> #[trigger] post.vfs.ramfs_data.contains_spec(g)
                                == pre.vfs.ramfs_data.contains_spec(g))
                        &&& (forall|g: u64|
                            g != ino && pre.vfs.ramfs_data.contains_spec(g)
                                ==> #[trigger] post.vfs.ramfs_data.data_of(g)
                                == pre.vfs.ramfs_data.data_of(g))
                        &&& task_file_updated(
                            pre.tasks,
                            post.tasks,
                            ti,
                            fd,
                            File { f_pos: (p + count) as u64, ..f },
                        )
                    },
                }
            }
        }
    }
}

/// Writes user bytes to the kernel log or an open file; see
/// [`sys_write_rel`].
pub fn sys_write(k: &mut Kernel, um: &UserMemory, fd: u64, buf: u64, count: u64) -> (r: u64)
    requires
        old(k).wf(),
    ensures
        final(k).wf(),
        sys_write_rel(*old(k), *final(k), *um, fd, buf, count, r),
{
    if fd == 1 || fd == 2 {
        let bytes = match um.read_bytes(buf, count) {
            Some(v) => v,
            None => {
                return SYSCALL_ERROR;
            },
        };
        let ghost pre_log = k.klog@;
        let mut z: usize = 0;
        let blen = bytes.len();
        while z < blen
            invariant
                z <= blen,
                blen == bytes@.len(),
                k.klog@ == pre_log + bytes@.take(z as int),
                k.vfs == old(k).vfs,
                k.tasks == old(k).tasks,
                old(k).wf(),
            decreases blen - z,
        {
            k.klog.push(bytes[z]);
            proof {
                assert(k.klog@ =~= pre_log + bytes@.take(z + 1));
            }
            z = z + 1;
        }
        proof {
            assert(bytes@.take(blen as int) =~= bytes@);
        }
        return count;
    }
    let ti = match crate::task::get_current_task(&k.tasks) {
        Some(i) => i,
        None => {
            return SYSCALL_ERROR;
        },
    };
    proof {
        k.tasks.lemma_task_idx(k.tasks.current, ti as int);
    }
    let fi = match k.tasks.tasks[ti].find_fd(fd) {
        Some(i) => i,
        None => {
            return SYSCALL_ERROR;
        },
    };
    let ghost pre_t = k.tasks.tasks@[ti as int];
    proof {
        pre_t.lemma_fd_idx(fd, fi as int);
    }
    let bytes = match um.read_bytes(buf, count) {
        Some(v) => v,
        None => {
            return SYSCALL_ERROR;
        },
    };
    if count > isize::MAX as u64 {
        return SYSCALL_ERROR;
    }
    let pos = k.tasks.tasks[ti].file_descriptors[fi].1.f_pos;
    if count > usize::MAX as u64 || pos > usize::MAX as u64 - count {
        return SYSCALL_ERROR;
    }
    let ghost pre_file = pre_t.file_descriptors@[fi as int].1;
    // Establish up front that the write cannot fail, so the file is only
    // touched on the success path.
    let f = k.tasks.tasks[ti].file_descriptors[fi].1;
    let ino = match f.f_inode {
        Some(ino) => ino,
        None => {
            return SYSCALL_ERROR;
        },
    };
    let ii = match k.vfs.find_inode(ino) {
        Some(ii) => ii,
        None => {
            return SYSCALL_ERROR;
        },
    };
    proof {
        k.vfs.lemma_inode_idx(ino, ii as int);
    }
    let fops = match k.vfs.inodes[ii].file_operations {
        Some(fops) => fops,
        None => {
            return SYSCALL_ERROR;
        },
    };
    match fops.write {
        Some(_) => {},
        None => {
            return SYSCALL_ERROR;
        },
    }
    let rr = write_file(
        &mut k.vfs,
        &mut k.tasks.tasks[ti].file_descriptors[fi].1,
        bytes.as_slice(),
    );
    let ghost post_file = k.tasks.tasks@[ti as int].file_descriptors@[fi as int].1;
    proof {
        let t = pre_t;
        let nt = k.tasks.tasks@[ti as int];
        assert(nt.file_descriptors@ =~= t.file_descriptors@.update(
            fi as int,
            (fd, post_file),
        ));
        assert(nt.fds_wf()) by {
            assert forall|a: int, b: int|
                0 <= a < b < nt.file_descriptors@.len() implies nt.file_descriptors@[a].0
                != nt.file_descriptors@[b].0 by {
                assert(nt.file_descriptors@[a].0 == t.file_descriptors@[a].0);
                assert(nt.file_descriptors@[b].0 == t.file_descriptors@[b].0);
            }
            assert forall|a: int| 0 <= a < nt.file_descriptors@.len() implies FIRST_FD <= (
            #[trigger] nt.file_descriptors@[a]).0 < nt.next_fd by {
                assert(nt.file_descriptors@[a].0 == t.file_descriptors@[a].0);
                assert(FIRST_FD <= t.file_descriptors@[a].0 < t.next_fd);
            }
        }
        assert forall|j: int| 0 <= j < k.tasks.tasks@.len() implies (
        #[trigger] k.tasks.tasks@[j]).fds_wf() by {
            if j != ti as int {
                assert(old(k).tasks.tasks@[j].fds_wf());
            }
        }
        assert forall|i: int, j: int| 0 <= i < j < k.tasks.tasks@.len() implies k.tasks.tasks@[
        i].pid != k.tasks.tasks@[j].pid by {
            assert(old(k).tasks.tasks@[i].pid == k.tasks.tasks@[i].pid);
            assert(old(k).tasks.tasks@[j].pid == k.tasks.tasks@[j].pid);
        }
        assert forall|i: int| 0 <= i < k.tasks.tasks@.len() implies 1 <= (
        #[trigger] k.tasks.tasks@[i]).pid < crate::task::PID_MAX by {
            assert(old(k).tasks.tasks@[i].pid == k.tasks.tasks@[i].pid);
            assert(1 <= old(k).tasks.tasks@[i].pid < crate::task::PID_MAX);
        }
        nt.lemma_fd_idx(fd, fi as int);
    }
    if rr < 0 {
        // The checks above rule out every failure of the driver call.
        proof {
            assert(false);
        }
        return SYSCALL_ERROR;
    }
    proof {
        assert(task_file_updated(
            old(k).tasks,
            k.tasks,
            ti as int,
            fd,
            File { f_pos: post_file.f_pos, ..pre_file },
        )) by {
            assert(post_file =~= (File { f_pos: post_file.f_pos, ..pre_file }));
            assert(old(k).tasks.task_at(old(k).tasks.current).fd_idx(fd) == fi as int);
        }
    }
    count
}

/// What `sys_open` does. The NUL-terminated path is read from user memory
/// (bounded, non-empty, well-formed UTF-8), resolved from the root, and the
/// file it names is opened at position 0 with the mode the low flag bits
/// select; the task's next descriptor is handed out and the file installed
/// under it. Errors (no
/// current task, a bad, unreadable, or non-UTF-8 path, a path that resolves
/// to nothing, a dentry without inode or file operations, descriptors
/// exhausted) return the error value and change nothing.
pub open spec fn sys_open_rel(
    pre: Kernel,
    post: Kernel,
    um: UserMemory,
    pathname: u64,
    flags: u64,
    r: u64,
) -> bool {
    let unchanged = post.tasks == pre.tasks && post.vfs == pre.vfs;
    &&& post.klog == pre.klog
    &&& post.tasks.current == pre.tasks.current
    &&& post.tasks.next_pid == pre.tasks.next_pid
    &&& if !pre.tasks.pid_in_table(pre.tasks.current) {
        r == SYSCALL_ERROR && unchanged
    } else {
        match user_path_at(um, pathname) {
            None => r == SYSCALL_ERROR && unchanged,
            Some(path) => if !is_utf8(path) {
                r == SYSCALL_ERROR && unchanged
            } else {
                match pre.vfs.root_dentry {
                None => r == SYSCALL_ERROR && unchanged,
                Some(root) => match descend(
                    pre.vfs,
                    root as int,
                    crate::fs::path::split_path(path),
                ) {
                    None => r == SYSCALL_ERROR && unchanged,
                    Some(d) => {
                        let ti = pre.tasks.task_idx(pre.tasks.current);
                        let t = pre.tasks.tasks@[ti];
                        match pre.vfs.dentries@[d].d_inode {
                            None => r == SYSCALL_ERROR && unchanged,
                            Some(ino) => if pre.vfs.inode_at(ino).file_operations is None {
                                r == SYSCALL_ERROR && unchanged
                            } else if t.next_fd == u64::MAX {
                                r == SYSCALL_ERROR && unchanged
                            } else {
                                let nt = post.tasks.tasks@[ti];
                                &&& r == t.next_fd
                                &&& pre.vfs.same_tree(post.vfs)
                                &&& post.vfs.inodes@ == pre.vfs.inodes@
                                &&& (if pre.vfs.inode_at(ino).file_operations.unwrap().open
                                    is Some {
                                    &&& post.vfs.ramfs_data.contains_spec(ino)
                                    &&& post.vfs.ramfs_data.data_of(ino)
                                        == crate::fs::ramfs::stored_data(pre.vfs.ramfs_data, ino)
                                    &&& (forall|g: u64|
                                        g != ino ==> #[trigger] post.vfs.ramfs_data.contains_spec(
                                            g,
                                        ) == pre.vfs.ramfs_data.contains_spec(g))
                                    &&& (forall|g: u64|
                                        g != ino && pre.vfs.ramfs_data.contains_spec(g)
                                            ==> #[trigger] post.vfs.ramfs_data.data_of(g)
                                            == pre.vfs.ramfs_data.data_of(g))
                                } else {
                                    post.vfs.ramfs_data == pre.vfs.ramfs_data
                                })
                                &&& post.tasks.tasks@.len() == pre.tasks.tasks@.len()
                                &&& (forall|j: int|
                                    0 <= j < pre.tasks.tasks@.len() && j != ti
                                        ==> post.tasks.tasks@[j] == pre.tasks.tasks@[j])
                                &&& nt.pid == t.pid
                                &&& nt.ppid == t.ppid
                                &&& nt.trap_frame == t.trap_frame
                                &&& nt.next_fd == t.next_fd + 1
                                &&& nt.file_descriptors@ == t.file_descriptors@.push(
                                    (
                                        t.next_fd,
                                        File {
                                            f_inode: Some(ino),
                                            f_mode: open_fmode(flags),
                                            f_pos: 0,
                                        },
                                    ),
                                )
                            },
                        }
                    },
                },
                }
            },
        }
    }
}

/// Opens the file a user path names and installs it under a fresh
/// descriptor; see [`sys_open_rel`].
pub fn sys_open(k: &mut Kernel, um: &UserMemory, pathname: u64, flags: u64, _mode: u64) -> (r:
    u64)
    requires
        old(k).wf(),
    ensures
        final(k).wf(),
        sys_open_rel(*old(k), *final(k), *um, pathname, flags, r),
{
    let ti = match crate::task::get_current_task(&k.tasks) {
        Some(i) => i,
        None => {
            return SYSCALL_ERROR;
        },
    };
    proof {
        k.tasks.lemma_task_idx(k.tasks.current, ti as int);
    }
    let path = match um.read_cstr(pathname) {
        Some(p) => p,
        None => {
            return SYSCALL_ERROR;
        },
    };
    if !utf8_valid(path.as_slice()) {
        return SYSCALL_ERROR;
    }
    let d = match resolve_path(&k.vfs, path.as_slice()) {
        Some(d) => d,
        None => {
            return SYSCALL_ERROR;
        },
    };
    let fmode = if flags & 3 == 0 {
        FMode(0o1)
    } else if flags & 3 == 1 {
        FMode(0o2)
    } else if flags & 3 == 2 {
        FMode(0o3)
    } else {
        FMode(0o1)
    };
    if k.tasks.tasks[ti].next_fd == u64::MAX {
        return SYSCALL_ERROR;
    }
    let ghost pre_t = k.tasks.tasks@[ti as int];
    proof {
        assert(old(k).tasks.task_idx(old(k).tasks.current) == ti as int);
        assert(pre_t == old(k).tasks.tasks@[ti as int]);
        assert(user_path_at(*um, pathname) == Some(path@));
        assert(old(k).vfs.dentries@.len() <= usize::MAX) by {
            assert(old(k).vfs.dentries@.len() == vstd::std_specs::vec::spec_vec_len(
                &old(k).vfs.dentries,
            ));
        }
        assert(descend(old(k).vfs, old(k).vfs.root_dentry.unwrap() as int,
            crate::fs::path::split_path(path@)) == Some(d as int));
    }
    let file = match open_file(&mut k.vfs, d, fmode) {
        Some(f) => f,
        None => {
            return SYSCALL_ERROR;
        },
    };
    proof {
        assert(k.vfs.dentries@[d as int].d_inode is Some);
    }
    let fd = k.tasks.tasks[ti].next_fd;
    proof {
        assert(fd == pre_t.next_fd);
    }
    let tref = &mut k.tasks.tasks[ti];
    tref.next_fd = fd + 1;
    tref.file_descriptors.push((fd, file));
    proof {
        let t = pre_t;
        let nt = k.tasks.tasks@[ti as int];
        assert(nt.fds_wf()) by {
            assert forall|a: int, b: int|
                0 <= a < b < nt.file_descriptors@.len() implies nt.file_descriptors@[a].0
                != nt.file_descriptors@[b].0 by {
                if b < t.file_descriptors@.len() {
                    assert(nt.file_descriptors@[a] == t.file_descriptors@[a]);
                    assert(nt.file_descriptors@[b] == t.file_descriptors@[b]);
                } else {
                    assert(nt.file_descriptors@[a] == t.file_descriptors@[a]);
                    assert(nt.file_descriptors@[b].0 == fd);
                    assert(t.file_descriptors@[a].0 < t.next_fd);
                }
            }
            assert forall|a: int| 0 <= a < nt.file_descriptors@.len() implies FIRST_FD <= (
            #[trigger] nt.file_descriptors@[a]).0 < nt.next_fd by {
                if a < t.file_descriptors@.len() {
                    assert(nt.file_descriptors@[a] == t.file_descriptors@[a]);
                    assert(FIRST_FD <= t.file_descriptors@[a].0 < t.next_fd);
                }
            }
        }
        assert forall|j: int| 0 <= j < k.tasks.tasks@.len() implies (
        #[trigger] k.tasks.tasks@[j]).fds_wf() by {
            if j != ti as int {
                assert(old(k).tasks.tasks@[j].fds_wf());
            }
        }
        assert forall|i: int, j: int| 0 <= i < j < k.tasks.tasks@.len() implies k.tasks.tasks@[
        i].pid != k.tasks.tasks@[j].pid by {
            assert(old(k).tasks.tasks@[i].pid == k.tasks.tasks@[i].pid);
            assert(old(k).tasks.tasks@[j].pid == k.tasks.tasks@[j].pid);
        }
        assert forall|i: int| 0 <= i < k.tasks.tasks@.len() implies 1 <= (
        #[trigger] k.tasks.tasks@[i]).pid < crate::task::PID_MAX by {
            assert(old(k).tasks.tasks@[i].pid == k.tasks.tasks@[i].pid);
            assert(1 <= old(k).tasks.tasks@[i].pid < crate::task::PID_MAX);
        }
    }
    fd
}

/// One trap-frame recording step: the current task's `trap_frame` becomes
/// `addr` and nothing else moves.
pub open spec fn trap_recorded(pre: TaskTable, post: TaskTable, addr: u64) -> bool {
    &&& post.current == pre.current
    &&& post.next_pid == pre.next_pid
    &&& post.tasks@.len() == pre.tasks@.len()
    &&& (forall|j: int|
        0 <= j < pre.tasks@.len() && j != pre.task_idx(pre.current) ==> post.tasks@[j]
            == pre.tasks@[j])
    &&& ({
        let ti = pre.task_idx(pre.current);
        let t = pre.tasks@[ti];
        let nt = post.tasks@[ti];
        &&& nt.pid == t.pid
        &&& nt.ppid == t.ppid
        &&& nt.trap_frame == addr
        &&& nt.page_table_frame == t.page_table_frame
        &&& nt.page_table == t.page_table
        &&& nt.file_descriptors == t.file_descriptors
        &&& nt.next_fd == t.next_fd
    })
}

/// Dispatches one syscall by number: 0 read, 1 write, 2 open, 3 close,
/// 39 getpid, 60 exit, 110 getppid; anything else yields the error value.
/// The address where the entry stub saved the frame is recorded in the
/// current task before the handler runs; the result also lands in the
/// frame's `rax`, where the return stub picks it up, and no other saved
/// register changes.
pub fn syscall_dispatch(
    k: &mut Kernel,
    um: &mut UserMemory,
    frame: &mut TrapFrame,
    frame_addr: u64,
) -> (r: u64)
    requires
        old(k).wf(),
        old(k).tasks.pid_in_table(old(k).tasks.current),
    ensures
        final(k).wf(),
        *final(frame) == (TrapFrame { rax: r, ..*old(frame) }),
        // The frame address sticks in the task that made the call.
        final(k).tasks.pid_in_table(old(k).tasks.current),
        final(k).tasks.task_at(old(k).tasks.current).trap_frame == frame_addr,
        // The handler acts on the recorded state.
        exists|mid: TaskTable|
            {
                &&& #[trigger] trap_recorded(old(k).tasks, mid, frame_addr)
                &&& ({
                    let pre = (Kernel { vfs: old(k).vfs, tasks: mid, klog: old(k).klog });
                    let num = old(frame).rax;
                    let a1 = old(frame).rdi;
                    let a2 = old(frame).rsi;
                    let a3 = old(frame).rdx;
                    &&& (num == 0 ==> sys_read_rel(
                        pre,
                        *final(k),
                        *old(um),
                        *final(um),
                        a1,
                        a2,
                        a3,
                        r,
                    ))
                    &&& (num == 1 ==> sys_write_rel(pre, *final(k), *old(um), a1, a2, a3, r)
                        && *final(um) == *old(um))
                    &&& (num == 2 ==> sys_open_rel(pre, *final(k), *old(um), a1, a2, r)
                        && *final(um) == *old(um))
                    &&& (num == 3 ==> sys_close_rel(pre, *final(k), a1, r)
                        && *final(um) == *old(um))
                    &&& (num == 39 ==> r == old(k).tasks.current && *final(k) == pre && *final(um)
                        == *old(um))
                    &&& (num == 60 ==> r == 42 && final(k).tasks.current == 0
                        && final(k).tasks.tasks@ == mid.tasks@
                        && final(k).tasks.next_pid == mid.next_pid
                        && final(k).vfs == old(k).vfs && final(k).klog == old(k).klog
                        && *final(um) == *old(um))
                    &&& (num == 110 ==> r == old(k).tasks.task_at(old(k).tasks.current).ppid
                        && *final(k) == pre && *final(um) == *old(um))
                    &&& (!(num == 0 || num == 1 || num == 2 || num == 3 || num == 39 || num == 60
                        || num == 110) ==> r == SYSCALL_ERROR && *final(k) == pre
                        && *final(um) == *old(um))
                })
            },
{
    record_trap_frame(&mut k.tasks, frame_addr);
    let ghost mid = k.tasks;
    let ghost midk = *k;
    proof {
        assert(midk =~~= (Kernel { vfs: old(k).vfs, tasks: mid, klog: old(k).klog }));
    }
    let num = frame.rax;
    let result: u64 = if num == 1 {
        sys_write(k, &*um, frame.rdi, frame.rsi, frame.rdx)
    } else if num == 2 {
        sys_open(k, &*um, frame.rdi, frame.rsi, frame.rdx)
    } else if num == 0 {
        sys_read(k, um, frame.rdi, frame.rsi, frame.rdx)
    } else if num == 3 {
        sys_close(k, frame.rdi)
    } else if num == 39 {
        sys_getpid(&*k)
    } else if num == 60 {
        sys_exit(k, frame.rdi)
    } else if num == 110 {
        sys_getppid(&*k)
    } else {
        SYSCALL_ERROR
    };
    frame.rax = result;
    proof {
        let cur = old(k).tasks.current;
        let ti = old(k).tasks.task_idx(cur);
        old(k).tasks.lemma_task_idx(cur, old(k).tasks.task_idx(cur));
        assert(mid.tasks@[ti].pid == cur && mid.tasks@[ti].trap_frame == frame_addr);
        mid.lemma_task_idx(cur, ti);
        // Whatever the handler did, it left the recorded address in place:
        // every handler keeps each task's identity and trap-frame field.
        assert(k.tasks.tasks@.len() == mid.tasks@.len() && k.tasks.tasks@[ti].pid == cur
            && k.tasks.tasks@[ti].trap_frame == frame_addr) by {
            if num == 110 {
                assert(mid.pid_in_table(mid.current));
            }
        }
        k.tasks.lemma_task_idx(cur, ti);
        if num == 110 {
            assert(result == mid.task_at(cur).ppid);
            assert(mid.task_at(cur).ppid == old(k).tasks.task_at(cur).ppid);
        }
    }
    result
}

/// Records where the entry stub saved the trap frame, in the current task.
/// The stub calls this before dispatching.
pub fn record_trap_frame(tasks: &mut TaskTable, addr: u64)
    requires
        old(tasks).wf(),
        old(tasks).pid_in_table(old(tasks).current),
    ensures
        final(tasks).wf(),
        trap_recorded(*old(tasks), *final(tasks), addr),
{
    let ti = match crate::task::get_current_task(tasks) {
        Some(i) => i,
        None => {
            // The caller guarantees the current PID is registered.
            proof {
                assert(false);
            }
            return ;
        },
    };
    proof {
        tasks.lemma_task_idx(tasks.current, ti as int);
    }
    let tref = &mut tasks.tasks[ti];
    tref.trap_frame = addr;
    proof {
        assert forall|j: int| 0 <= j < tasks.tasks@.len() implies (
        #[trigger] tasks.tasks@[j]).fds_wf() by {
            assert(old(tasks).tasks@[j].fds_wf());
            if j == ti as int {
                assert(tasks.tasks@[j].file_descriptors == old(tasks).tasks@[j].file_descriptors);
                assert(tasks.tasks@[j].next_fd == old(tasks).tasks@[j].next_fd);
            }
        }
        assert forall|i: int, j: int| 0 <= i < j < tasks.tasks@.len() implies tasks.tasks@[i].pid
            != tasks.tasks@[j].pid by {
            assert(old(tasks).tasks@[i].pid == tasks.tasks@[i].pid);
            assert(old(tasks).tasks@[j].pid == tasks.tasks@[j].pid);
        }
        assert forall|i: int| 0 <= i < tasks.tasks@.len() implies 1 <= (
        #[trigger] tasks.tasks@[i]).pid < crate::task::PID_MAX by {
            assert(old(tasks).tasks@[i].pid == tasks.tasks@[i].pid);
            assert(1 <= old(tasks).tasks@[i].pid < crate::task::PID_MAX);
        }
    }
}

} // verus!
