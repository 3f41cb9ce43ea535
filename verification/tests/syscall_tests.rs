use failos::fs::vfs::vfs_init;
use failos::memory::{BootInfoFrameAllocator, MemoryRegion, MemoryRegionKind, PageTable};
use failos::syscall::{
    configure_syscalls, record_trap_frame, sys_close, sys_exit, sys_getpid, sys_getppid,
    syscall_dispatch, Kernel, UserMemory, SYSCALL_ERROR,
};
use failos::task::{create_task, getpid, getppid, set_current_pid, TaskTable, TrapFrame};

fn frame_allocator() -> BootInfoFrameAllocator {
    BootInfoFrameAllocator::init(vec![MemoryRegion {
        start: 0x10000,
        end: 0x90000,
        kind: MemoryRegionKind::Usable,
    }])
}

fn kernel_pt() -> PageTable {
    PageTable { entries: vec![0u64; 512] }
}

/// A kernel with the VFS mounted and one task made current.
fn booted_kernel() -> Kernel {
    let mut k = Kernel::new();
    vfs_init(&mut k.vfs);
    let mut falloc = frame_allocator();
    let pt = kernel_pt();
    let pid = create_task(&mut k.tasks, 0, &mut falloc, &pt).expect("create task");
    set_current_pid(&mut k.tasks, pid);
    k
}

fn zero_frame() -> TrapFrame {
    TrapFrame {
        r15: 0,
        r14: 0,
        r13: 0,
        r12: 0,
        r11: 0,
        r10: 0,
        r9: 0,
        r8: 0,
        rbp: 0,
        rdi: 0,
        rsi: 0,
        rdx: 0,
        rcx: 0,
        rbx: 0,
        rax: 0,
        rip: 0,
        cs: 0,
        rflags: 0,
        rsp: 0,
        ss: 0,
    }
}

/// User memory holding a NUL-terminated path at a given address.
fn memory_with_path(path: &[u8], at: usize, size: usize) -> UserMemory {
    let mut bytes = vec![0u8; size];
    bytes[at..at + path.len()].copy_from_slice(path);
    bytes[at + path.len()] = 0;
    UserMemory { bytes }
}

fn dispatch(k: &mut Kernel, um: &mut UserMemory, num: u64, a1: u64, a2: u64, a3: u64) -> u64 {
    let mut frame = zero_frame();
    frame.rax = num;
    frame.rdi = a1;
    frame.rsi = a2;
    frame.rdx = a3;
    let cur = k.tasks.current;
    let r = syscall_dispatch(k, um, &mut frame, 0x7000);
    assert_eq!(frame.rax, r, "the result lands in rax");
    // The dispatcher records where the stub saved the frame.
    let i = k.tasks.find_task(cur).expect("the calling task stays registered");
    assert_eq!(k.tasks.tasks[i].trap_frame, 0x7000);
    r
}

#[test]
fn getpid_follows_set_current() {
    let mut falloc = frame_allocator();
    let pt = kernel_pt();
    let mut tasks = TaskTable::new();
    let pid1 = create_task(&mut tasks, 0, &mut falloc, &pt).expect("task 1");
    let pid2 = create_task(&mut tasks, pid1, &mut falloc, &pt).expect("task 2");
    assert_ne!(pid1, pid2);
    set_current_pid(&mut tasks, pid1);
    assert_eq!(getpid(&tasks), pid1);
    set_current_pid(&mut tasks, pid2);
    assert_eq!(getpid(&tasks), pid2);
    // getppid reports the parent recorded at creation.
    assert_eq!(getppid(&tasks), pid1);
    set_current_pid(&mut tasks, pid1);
    assert_eq!(getppid(&tasks), 0);
}

#[test]
fn getppid_without_task_is_zero() {
    let tasks = TaskTable::new();
    assert_eq!(getppid(&tasks), 0);
}

#[test]
fn close_rejects_standard_fds() {
    // close(0), close(1), close(2) all fail; close(3) succeeds after an
    // open, and reading the closed descriptor fails.
    let mut k = booted_kernel();
    let mut um = memory_with_path(b"/t", 0x100, 0x1000);

    assert_eq!(sys_close(&mut k, 0), SYSCALL_ERROR);
    assert_eq!(sys_close(&mut k, 1), SYSCALL_ERROR);
    assert_eq!(sys_close(&mut k, 2), SYSCALL_ERROR);

    // Create /t through the VFS, then open it through the syscall path.
    let root = k.vfs.root_dentry.expect("root");
    failos::fs::vfs::create_file(
        &mut k.vfs,
        root,
        b"t",
        failos::types::Mode(0o100644),
        failos::types::Uid(0),
        failos::types::Gid(0),
    )
    .expect("create /t");
    let fd = dispatch(&mut k, &mut um, 2, 0x100, 0, 0);
    assert_eq!(fd, 3);
    assert_eq!(sys_close(&mut k, 3), 0);
    // The descriptor is gone now.
    let r = dispatch(&mut k, &mut um, 0, 3, 0x200, 8);
    assert_eq!(r, SYSCALL_ERROR);
    assert_eq!(sys_close(&mut k, 3), SYSCALL_ERROR);
}

#[test]
fn open_write_read_through_syscalls() {
    let mut k = booted_kernel();
    let mut um = memory_with_path(b"/f", 0x10, 0x1000);
    let root = k.vfs.root_dentry.expect("root");
    failos::fs::vfs::create_file(
        &mut k.vfs,
        root,
        b"f",
        failos::types::Mode(0o100644),
        failos::types::Uid(0),
        failos::types::Gid(0),
    )
    .expect("create /f");

    // open(path, O_RDWR, 0)
    let fd = dispatch(&mut k, &mut um, 2, 0x10, 2, 0);
    assert_eq!(fd, 3);

    // Put payload bytes into user memory and write them to the file.
    let payload = b"syscall bytes";
    um.bytes[0x400..0x400 + payload.len()].copy_from_slice(payload);
    let wrote = dispatch(&mut k, &mut um, 1, fd, 0x400, payload.len() as u64);
    assert_eq!(wrote, payload.len() as u64);

    // Reading continues at the file position, so reopen to read from 0.
    assert_eq!(dispatch(&mut k, &mut um, 3, fd, 0, 0), 0);
    let fd2 = dispatch(&mut k, &mut um, 2, 0x10, 0, 0);
    assert_eq!(fd2, 4, "descriptors keep counting up");
    let got = dispatch(&mut k, &mut um, 0, fd2, 0x800, 32);
    assert_eq!(got, payload.len() as u64);
    assert_eq!(&um.bytes[0x800..0x800 + payload.len()], payload);
}

#[test]
fn open_missing_path_fails() {
    let mut k = booted_kernel();
    let mut um = memory_with_path(b"/absent", 0x10, 0x1000);
    assert_eq!(dispatch(&mut k, &mut um, 2, 0x10, 0, 0), SYSCALL_ERROR);
    // An empty path is rejected before resolution.
    let mut um2 = UserMemory { bytes: vec![0u8; 64] };
    assert_eq!(dispatch(&mut k, &mut um2, 2, 0, 0, 0), SYSCALL_ERROR);
    // A path with no terminator inside the cap is rejected.
    let mut um3 = UserMemory { bytes: vec![b'a'; 512] };
    assert_eq!(dispatch(&mut k, &mut um3, 2, 0, 0, 0), SYSCALL_ERROR);
}

#[test]
fn write_to_standard_fds_feeds_the_log() {
    let mut k = booted_kernel();
    let mut um = UserMemory { bytes: vec![0u8; 64] };
    um.bytes[..5].copy_from_slice(b"hello");
    assert_eq!(dispatch(&mut k, &mut um, 1, 1, 0, 5), 5);
    assert_eq!(k.klog, b"hello".to_vec());
    assert_eq!(dispatch(&mut k, &mut um, 1, 2, 0, 5), 5);
    assert_eq!(k.klog, b"hellohello".to_vec());
    // An out-of-range buffer is refused.
    assert_eq!(dispatch(&mut k, &mut um, 1, 1, 60, 10), SYSCALL_ERROR);
}

#[test]
fn unknown_syscall_number_is_error() {
    let mut k = booted_kernel();
    let mut um = UserMemory { bytes: vec![0u8; 16] };
    assert_eq!(dispatch(&mut k, &mut um, 7, 0, 0, 0), SYSCALL_ERROR);
    assert_eq!(dispatch(&mut k, &mut um, 1000, 0, 0, 0), SYSCALL_ERROR);
}

#[test]
fn getters_and_exit_through_dispatch() {
    let mut k = booted_kernel();
    let mut um = UserMemory { bytes: vec![0u8; 16] };
    let pid = k.tasks.current;
    assert_eq!(dispatch(&mut k, &mut um, 39, 0, 0, 0), pid);
    assert_eq!(dispatch(&mut k, &mut um, 110, 0, 0, 0), 0);
    assert_eq!(sys_getpid(&k), pid);
    assert_eq!(sys_getppid(&k), 0);
    // Exit terminates the calling task: the current slot is cleared, and
    // the task is no longer acted for, though its record stays.
    assert_eq!(dispatch(&mut k, &mut um, 60, 0, 0, 0), 42);
    assert_eq!(k.tasks.current, 0);
    assert!(k.tasks.find_task(pid).is_some(), "the record is never freed");
    assert_eq!(sys_getpid(&k), 0);
}

#[test]
fn exit_clears_the_current_task() {
    let mut k = booted_kernel();
    let pid = k.tasks.current;
    assert_ne!(pid, 0);
    assert_eq!(sys_exit(&mut k, 7), 42);
    assert_eq!(k.tasks.current, 0);
}

#[test]
fn open_rejects_non_utf8_paths() {
    // A dentry whose name is not UTF-8 can exist in the tree, but the
    // syscall path refuses the path bytes before resolving them.
    let mut k = booted_kernel();
    let root = k.vfs.root_dentry.expect("root");
    let made = failos::fs::vfs::create_file(
        &mut k.vfs,
        root,
        &[0xFF, 0xFE],
        failos::types::Mode(0o100644),
        failos::types::Uid(0),
        failos::types::Gid(0),
    );
    assert!(made.is_some());
    let mut um = memory_with_path(&[b'/', 0xFF, 0xFE], 0, 64);
    assert_eq!(dispatch(&mut k, &mut um, 2, 0, 0, 0), SYSCALL_ERROR);
    // An overlong encoding of '/' is refused too.
    let mut um2 = memory_with_path(&[0xC0, 0xAF], 0, 64);
    assert_eq!(dispatch(&mut k, &mut um2, 2, 0, 0, 0), SYSCALL_ERROR);
}

#[test]
fn open_accepts_multibyte_utf8_paths() {
    let mut k = booted_kernel();
    let root = k.vfs.root_dentry.expect("root");
    // A file named with a two-byte scalar, then opened through the syscall.
    failos::fs::vfs::create_file(
        &mut k.vfs,
        root,
        "\u{e9}".as_bytes(),
        failos::types::Mode(0o100644),
        failos::types::Uid(0),
        failos::types::Gid(0),
    )
    .expect("create the file");
    let mut um = memory_with_path("/\u{e9}".as_bytes(), 0, 64);
    assert_eq!(dispatch(&mut k, &mut um, 2, 0, 0, 0), 3);
}

#[test]
fn trap_frame_address_is_recorded() {
    let mut k = booted_kernel();
    record_trap_frame(&mut k.tasks, 0xDEAD_0000);
    let i = k.tasks.find_task(k.tasks.current).expect("current task");
    assert_eq!(k.tasks.tasks[i].trap_frame, 0xDEAD_0000);
}

#[test]
fn syscall_msr_values() {
    // Selectors from the descriptor layout: kernel code 0x08, user code 0x2B.
    let s = failos::gdt::init_gdt();
    let msrs = configure_syscalls(
        s.kernel_code_selector,
        s.user_code_selector,
        0x1234_5678,
        0x9000,
        0x500,
    );
    // STAR: kernel base 0x08 in bits 32..48, sysret base 0x18 in bits 48..64.
    assert_eq!(msrs.star, 0x0018_0008_0000_0000);
    assert_eq!(msrs.lstar, 0x1234_5678);
    assert_eq!(msrs.fmask, 0x0300);
    assert_eq!(msrs.efer, 0x501);
    assert_eq!(msrs.kernel_gs_base, 0x9000);
}

#[test]
fn user_memory_bounds() {
    let um = UserMemory { bytes: vec![1, 2, 3, 4] };
    assert_eq!(um.read_bytes(1, 2), Some(vec![2, 3]));
    assert_eq!(um.read_bytes(3, 2), None);
    assert_eq!(um.read_bytes(0, 5), None);
    let mut um = UserMemory { bytes: vec![0u8; 4] };
    assert!(um.write_bytes(1, &[9, 8]));
    assert_eq!(um.bytes, vec![0, 9, 8, 0]);
    assert!(!um.write_bytes(3, &[1, 2]));
    assert_eq!(um.bytes, vec![0, 9, 8, 0]);
}
