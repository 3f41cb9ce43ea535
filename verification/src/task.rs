//! The task model: per-task page table, trap-frame pointer, and
//! file-descriptor table, plus the PID-indexed registry and the current-task
//! slot that syscall dispatch consults.

use crate::fs::file::File;
use crate::memory::{create_user_page_table, BootInfoFrameAllocator, PageTable};
use vstd::prelude::*;

verus! {

/// PIDs wrap below this bound when allocated.
pub const PID_MAX: u64 = 0x0400_0000;

/// The first file descriptor a task may hand out; 0 through 2 are reserved
/// and never appear in the table.
pub const FIRST_FD: u64 = 3;

/// The register bank the ring-transition stub saves on the kernel stack, in
/// push order, followed by the synthetic interrupt frame. The layout is part
/// of the ABI between the stub and the dispatcher.
#[derive(Clone, Copy, PartialEq, Eq, Structural, Debug)]
pub struct TrapFrame {
    pub r15: u64,
    pub r14: u64,
    pub r13: u64,
    pub r12: u64,
    pub r11: u64,
    pub r10: u64,
    pub r9: u64,
    pub r8: u64,
    pub rbp: u64,
    pub rdi: u64,
    pub rsi: u64,
    pub rdx: u64,
    pub rcx: u64,
    pub rbx: u64,
    pub rax: u64,
    pub rip: u64,
    pub cs: u64,
    pub rflags: u64,
    pub rsp: u64,
    pub ss: u64,
}

/// One task: identity, address space, saved trap frame, and open files.
#[verifier::ext_equal]
pub struct Task {
    pub pid: u64,
    pub ppid: u64,
    /// Address of the saved trap frame, 0 while none is live.
    pub trap_frame: u64,
    /// Physical frame holding the task's PML4.
    pub page_table_frame: u64,
    /// The task's PML4 contents: the kernel half shared by entry copy, the
    /// user half its own.
    pub page_table: PageTable,
    /// Open files by descriptor; descriptors are unique and at least
    /// [`FIRST_FD`].
    pub file_descriptors: Vec<(u64, File)>,
    /// The next descriptor to hand out.
    pub next_fd: u64,
}

impl Task {
    /// Descriptors are unique, at least [`FIRST_FD`], and below the cursor.
    pub open spec fn fds_wf(self) -> bool {
        &&& self.next_fd >= FIRST_FD
        &&& forall|i: int, j: int|
            0 <= i < j < self.file_descriptors@.len() ==> self.file_descriptors@[i].0
                != self.file_descriptors@[j].0
        &&& forall|i: int|
            0 <= i < self.file_descriptors@.len() ==> FIRST_FD <= (
            #[trigger] self.file_descriptors@[i]).0 < self.next_fd
    }

    /// Whether the task holds an open file at this descriptor.
    pub open spec fn fd_in_table(self, fd: u64) -> bool {
        exists|i: int| 0 <= i < self.file_descriptors@.len() && self.file_descriptors@[i].0 == fd
    }

    /// The slot index of this descriptor.
    pub open spec fn fd_idx(self, fd: u64) -> int {
        choose|i: int| 0 <= i < self.file_descriptors@.len() && self.file_descriptors@[i].0 == fd
    }

    /// The open file at this descriptor.
    pub open spec fn file_at(self, fd: u64) -> File {
        self.file_descriptors@[self.fd_idx(fd)].1
    }

    /// With unique descriptors, any slot holding `fd` is the slot `file_at`
    /// speaks of.
    pub proof fn lemma_fd_idx(self, fd: u64, i: int)
        requires
            self.fds_wf(),
            0 <= i < self.file_descriptors@.len(),
            self.file_descriptors@[i].0 == fd,
        ensures
            self.fd_in_table(fd),
            self.fd_idx(fd) == i,
            self.file_at(fd) == self.file_descriptors@[i].1,
    {
        assert(self.fd_in_table(fd));
        let j = self.fd_idx(fd);
        if i < j {
            assert(self.file_descriptors@[i].0 != self.file_descriptors@[j].0);
        } else if j < i {
            assert(self.file_descriptors@[j].0 != self.file_descriptors@[i].0);
        }
    }

    /// Finds the slot of this descriptor.
    pub fn find_fd(&self, fd: u64) -> (r: Option<usize>)
        ensures
            match r {
                Some(i) => i < self.file_descriptors@.len() && self.file_descriptors@[i as int].0
                    == fd && self.fd_in_table(fd),
                None => !self.fd_in_table(fd),
            },
    {
        let n = self.file_descriptors.len();
        let mut i: usize = 0;
        while i < n
            invariant
                n == self.file_descriptors@.len(),
                i <= n,
                forall|j: int| 0 <= j < i ==> self.file_descriptors@[j].0 != fd,
            decreases n - i,
        {
            if self.file_descriptors[i].0 == fd {
                return Some(i);
            }
            i = i + 1;
        }
        None
    }

    /// A fresh task: empty descriptor table, no trap frame, and an address
    /// space cloned from the kernel's. `None` when no frame is left for the
    /// new PML4.
    pub fn new(
        pid: u64,
        ppid: u64,
        frame_allocator: &mut BootInfoFrameAllocator,
        kernel_pt: &PageTable,
    ) -> (r: Option<Task>)
        requires
            old(frame_allocator).next < usize::MAX,
            kernel_pt.wf(),
        ensures
            final(frame_allocator).memory_map == old(frame_allocator).memory_map,
            final(frame_allocator).next == old(frame_allocator).next + 1,
            match r {
                Some(t) => {
                    &&& t.pid == pid
                    &&& t.ppid == ppid
                    &&& t.trap_frame == 0
                    &&& t.fds_wf()
                    &&& t.file_descriptors@.len() == 0
                    &&& t.next_fd == FIRST_FD
                    &&& crate::memory::user_clone_of(*kernel_pt, t.page_table)
                    &&& old(frame_allocator).next < old(frame_allocator).frames().len()
                    &&& t.page_table_frame == old(frame_allocator).frames()[old(
                        frame_allocator,
                    ).next as int]
                },
                None => old(frame_allocator).next >= old(frame_allocator).frames().len(),
            },
    {
        let (frame, pt) = match create_user_page_table(frame_allocator, kernel_pt) {
            Some(fp) => fp,
            None => {
                return None;
            },
        };
        Some(
            Task {
                pid,
                ppid,
                trap_frame: 0,
                page_table_frame: frame,
                page_table: pt,
                file_descriptors: Vec::new(),
                next_fd: FIRST_FD,
            },
        )
    }
}

/// The PID-indexed task registry and the current-task slot.
#[verifier::ext_equal]
pub struct TaskTable {
    pub tasks: Vec<Task>,
    /// PID of the task syscall dispatch acts for; 0 while none is set.
    pub current: u64,
    /// Rolling cursor for PID allocation.
    pub next_pid: u64,
}

impl TaskTable {
    /// PIDs are unique and in range, and every task's descriptor table is
    /// coherent.
    pub open spec fn wf(self) -> bool {
        &&& forall|i: int, j: int|
            0 <= i < j < self.tasks@.len() ==> self.tasks@[i].pid != self.tasks@[j].pid
        &&& forall|i: int|
            0 <= i < self.tasks@.len() ==> 1 <= (#[trigger] self.tasks@[i]).pid < PID_MAX
        &&& forall|i: int| 0 <= i < self.tasks@.len() ==> (#[trigger] self.tasks@[i]).fds_wf()
        &&& 1 <= self.next_pid < PID_MAX
    }

    /// Whether some task carries this PID.
    pub open spec fn pid_in_table(self, pid: u64) -> bool {
        exists|i: int| 0 <= i < self.tasks@.len() && self.tasks@[i].pid == pid
    }

    /// The registry index of this PID.
    pub open spec fn task_idx(self, pid: u64) -> int {
        choose|i: int| 0 <= i < self.tasks@.len() && self.tasks@[i].pid == pid
    }

    /// The task carrying this PID.
    pub open spec fn task_at(self, pid: u64) -> Task {
        self.tasks@[self.task_idx(pid)]
    }

    /// With unique PIDs, any registry index holding `pid` is the index
    /// `task_at` speaks of.
    pub proof fn lemma_task_idx(self, pid: u64, i: int)
        requires
            self.wf(),
            0 <= i < self.tasks@.len(),
            self.tasks@[i].pid == pid,
        ensures
            self.pid_in_table(pid),
            self.task_idx(pid) == i,
            self.task_at(pid) == self.tasks@[i],
    {
        assert(self.pid_in_table(pid));
        let j = self.task_idx(pid);
        if i < j {
            assert(self.tasks@[i].pid != self.tasks@[j].pid);
        } else if j < i {
            assert(self.tasks@[j].pid != self.tasks@[i].pid);
        }
    }

    /// An empty registry: no tasks, no current task, PIDs start at 1.
    pub fn new() -> (r: TaskTable)
        ensures
            r.wf(),
            r.tasks@.len() == 0,
            r.current == 0,
            r.next_pid == 1,
    {
        TaskTable { tasks: Vec::new(), current: 0, next_pid: 1 }
    }

    /// Finds the registry index of this PID.
    pub fn find_task(&self, pid: u64) -> (r: Option<usize>)
        ensures
            match r {
                Some(i) => i < self.tasks@.len() && self.tasks@[i as int].pid == pid
                    && self.pid_in_table(pid),
                None => !self.pid_in_table(pid),
            },
    {
        let n = self.tasks.len();
        let mut i: usize = 0;
        while i < n
            invariant
                n == self.tasks@.len(),
                i <= n,
                forall|j: int| 0 <= j < i ==> self.tasks@[j].pid != pid,
            decreases n - i,
        {
            if self.tasks[i].pid == pid {
                return Some(i);
            }
            i = i + 1;
        }
        None
    }
}

/// Registers a new task: claims the first free PID at or after the rolling
/// cursor (wrapping to 1 below [`PID_MAX`]), clones the kernel page table
/// for it, and records it with an empty descriptor table. `None` when every
/// PID is taken or no frame is left for the page table.
pub fn create_task(
    tasks: &mut TaskTable,
    ppid: u64,
    frame_allocator: &mut BootInfoFrameAllocator,
    kernel_pt: &PageTable,
) -> (r: Option<u64>)
    requires
        old(tasks).wf(),
        old(frame_allocator).next < usize::MAX,
        kernel_pt.wf(),
    ensures
        final(tasks).wf(),
        final(tasks).current == old(tasks).current,
        final(frame_allocator).memory_map == old(frame_allocator).memory_map,
        match r {
            Some(pid) => {
                &&& !old(tasks).pid_in_table(pid)
                &&& 1 <= pid < PID_MAX
                &&& final(tasks).next_pid == pid
                &&& final(tasks).tasks@.len() == old(tasks).tasks@.len() + 1
                &&& (forall|j: int|
                    0 <= j < old(tasks).tasks@.len() ==> final(tasks).tasks@[j] == old(
                        tasks,
                    ).tasks@[j])
                &&& ({
                    let t = final(tasks).tasks@.last();
                    &&& t.pid == pid
                    &&& t.ppid == ppid
                    &&& t.trap_frame == 0
                    &&& t.file_descriptors@.len() == 0
                    &&& t.next_fd == FIRST_FD
                    &&& crate::memory::user_clone_of(*kernel_pt, t.page_table)
                })
                &&& (pid >= old(tasks).next_pid ==> forall|v: u64|
                    old(tasks).next_pid <= v < pid ==> old(tasks).pid_in_table(v))
                &&& (pid < old(tasks).next_pid ==> {
                    &&& forall|v: u64|
                        old(tasks).next_pid <= v < PID_MAX ==> old(tasks).pid_in_table(v)
                    &&& forall|v: u64| 1 <= v < pid ==> old(tasks).pid_in_table(v)
                })
            },
            None => {
                &&& *final(tasks) == *old(tasks)
                &&& ((forall|v: u64| 1 <= v < PID_MAX ==> old(tasks).pid_in_table(v)) || old(
                    frame_allocator,
                ).next >= old(frame_allocator).frames().len())
            },
        },
{
    let mut candidate: u64 = tasks.next_pid;
    let mut found: bool = false;
    while candidate < PID_MAX && !found
        invariant
            old(tasks).next_pid <= candidate <= PID_MAX,
            *tasks == *old(tasks),
            found ==> candidate < PID_MAX && !tasks.pid_in_table(candidate),
            forall|v: u64| old(tasks).next_pid <= v < candidate ==> tasks.pid_in_table(v),
        decreases PID_MAX - candidate, if found { 0int } else { 1int },
    {
        if tasks.find_task(candidate).is_none() {
            found = true;
        } else {
            candidate = candidate + 1;
        }
    }
    if !found {
        candidate = 1;
        while candidate < tasks.next_pid && !found
            invariant
                1 <= candidate <= tasks.next_pid,
                *tasks == *old(tasks),
                forall|v: u64| old(tasks).next_pid <= v < PID_MAX ==> tasks.pid_in_table(v),
                found ==> candidate < tasks.next_pid && !tasks.pid_in_table(candidate),
                forall|v: u64| 1 <= v < candidate ==> tasks.pid_in_table(v),
            decreases tasks.next_pid - candidate, if found { 0int } else { 1int },
        {
            if tasks.find_task(candidate).is_none() {
                found = true;
            } else {
                candidate = candidate + 1;
            }
        }
    }
    if !found {
        return None;
    }
    let task = match Task::new(candidate, ppid, frame_allocator, kernel_pt) {
        Some(t) => t,
        None => {
            return None;
        },
    };
    tasks.tasks.push(task);
    tasks.next_pid = candidate;
    Some(candidate)
}

/// The PID set by the most recent `set_current_pid`; 0 before any was set.
pub fn getpid(tasks: &TaskTable) -> (r: u64)
    ensures
        r == tasks.current,
{
    tasks.current
}

/// The parent PID stored when the current task was created, or 0 when no
/// task carries the current PID.
pub fn getppid(tasks: &TaskTable) -> (r: u64)
    requires
        tasks.wf(),
    ensures
        r == if tasks.pid_in_table(tasks.current) {
            tasks.task_at(tasks.current).ppid
        } else {
            0u64
        },
{
    let pid = getpid(tasks);
    match tasks.find_task(pid) {
        Some(i) => {
            proof {
                tasks.lemma_task_idx(pid, i as int);
            }
            tasks.tasks[i].ppid
        },
        None => 0,
    }
}

/// Makes `pid` the task syscall dispatch acts for.
pub fn set_current_pid(tasks: &mut TaskTable, pid: u64)
    ensures
        final(tasks).current == pid,
        final(tasks).tasks@ == old(tasks).tasks@,
        final(tasks).next_pid == old(tasks).next_pid,
        old(tasks).wf() ==> final(tasks).wf(),
{
    tasks.current = pid;
    proof {
        if old(tasks).wf() {
            assert forall|i: int| 0 <= i < tasks.tasks@.len() implies (
            #[trigger] tasks.tasks@[i]).fds_wf() by {
                assert(old(tasks).tasks@[i].fds_wf());
            }
        }
    }
}

/// The registry index of the current task, when one is registered.
pub fn get_current_task(tasks: &TaskTable) -> (r: Option<usize>)
    requires
        tasks.wf(),
    ensures
        match r {
            Some(i) => i < tasks.tasks@.len() && tasks.tasks@[i as int].pid == tasks.current
                && tasks.pid_in_table(tasks.current),
            None => !tasks.pid_in_table(tasks.current),
        },
{
    tasks.find_task(tasks.current)
}

} // verus!
