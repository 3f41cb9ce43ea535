use failos::fs::vfs::{
    allocate_empty_dentry, allocate_empty_inode, create_file, get_filesystem_by_name,
    get_full_path, mkdir, mount_filesystem, open_file, read_file, resolve_path, vfs_init,
    write_file, Vfs,
};
use failos::types::{FMode, Gid, Mode, Uid};

fn booted() -> Vfs {
    let mut vfs = Vfs::new();
    vfs_init(&mut vfs);
    vfs
}

fn root(vfs: &Vfs) -> usize {
    vfs.root_dentry.expect("root dentry set by vfs_init")
}

fn ino_of(vfs: &Vfs, dentry: usize) -> u64 {
    vfs.dentries[dentry].d_inode.expect("dentry has inode")
}

fn size_of(vfs: &Vfs, ino: u64) -> u64 {
    let i = vfs.find_inode(ino).expect("inode in table");
    vfs.inodes[i].i_size
}

#[test]
fn mount_sets_root_with_ino_one() {
    let vfs = booted();
    let r = root(&vfs);
    assert_eq!(vfs.dentries[r].d_inode, Some(1));
    assert!(vfs.dentries[r].d_parent.is_none());
    assert_eq!(get_full_path(&vfs, r), b"/".to_vec());
}

#[test]
fn mount_mkdir_full_path_round_trips() {
    // Mount at "/", create /a then /a/b, and resolve the full path back.
    let mut vfs = booted();
    let r = root(&vfs);
    let a = mkdir(&mut vfs, r, b"a", Mode(0o40777), Uid(0), Gid(0)).expect("mkdir a");
    let b = mkdir(&mut vfs, a, b"b", Mode(0o40777), Uid(0), Gid(0)).expect("mkdir b");
    let resolved = resolve_path(&vfs, b"/a/b").expect("resolve /a/b");
    assert_eq!(resolved, b);
    assert_eq!(get_full_path(&vfs, resolved), b"/a/b".to_vec());
    assert_eq!(get_full_path(&vfs, a), b"/a".to_vec());
}

#[test]
fn resolve_root_forms() {
    let vfs = booted();
    let r = root(&vfs);
    assert_eq!(resolve_path(&vfs, b"/"), Some(r));
    assert_eq!(resolve_path(&vfs, b""), Some(r));
    assert_eq!(resolve_path(&vfs, b"///"), Some(r));
}

#[test]
fn resolve_missing_component_is_none() {
    let mut vfs = booted();
    let r = root(&vfs);
    mkdir(&mut vfs, r, b"a", Mode(0o40777), Uid(0), Gid(0)).expect("mkdir a");
    assert_eq!(resolve_path(&vfs, b"/missing"), None);
    assert_eq!(resolve_path(&vfs, b"/a/missing"), None);
}

#[test]
fn mkdir_rejects_duplicates_and_separators() {
    let mut vfs = booted();
    let r = root(&vfs);
    assert!(mkdir(&mut vfs, r, b"a", Mode(0o40777), Uid(0), Gid(0)).is_some());
    assert!(mkdir(&mut vfs, r, b"a", Mode(0o40777), Uid(0), Gid(0)).is_none());
    assert!(mkdir(&mut vfs, r, b"", Mode(0o40777), Uid(0), Gid(0)).is_none());
    assert!(mkdir(&mut vfs, r, b"x/y", Mode(0o40777), Uid(0), Gid(0)).is_none());
}

#[test]
fn round_trip_write_then_read() {
    // Create /t, write 14 bytes, reopen, and read them back into a larger
    // buffer.
    let mut vfs = booted();
    let r = root(&vfs);
    let t = create_file(&mut vfs, r, b"t", Mode(0o100644), Uid(0), Gid(0)).expect("create /t");
    let mut f = open_file(&mut vfs, t, FMode(0o2)).expect("open for write");
    let written = write_file(&mut vfs, &mut f, b"Hello, RAMFS!\n");
    assert_eq!(written, 14);
    failos::fs::vfs::close_file(&mut vfs, f);

    let mut f = open_file(&mut vfs, t, FMode(0o1)).expect("open for read");
    let mut buf = vec![0u8; 32];
    let got = read_file(&vfs, &mut f, &mut buf);
    assert_eq!(got, 14);
    assert_eq!(&buf[..14], b"Hello, RAMFS!\n");
    assert_eq!(&buf[14..], &[0u8; 18][..]);
    failos::fs::vfs::close_file(&mut vfs, f);
}

#[test]
fn append_grows_size() {
    // After the round trip, seek to the end and append two bytes.
    let mut vfs = booted();
    let r = root(&vfs);
    let t = create_file(&mut vfs, r, b"t", Mode(0o100644), Uid(0), Gid(0)).expect("create /t");
    let mut f = open_file(&mut vfs, t, FMode(0o2)).expect("open write");
    assert_eq!(write_file(&mut vfs, &mut f, b"Hello, RAMFS!\n"), 14);
    failos::fs::vfs::close_file(&mut vfs, f);

    let ino = ino_of(&vfs, t);
    let mut f = open_file(&mut vfs, t, FMode(0o2)).expect("open write again");
    f.f_pos = size_of(&vfs, ino);
    assert_eq!(write_file(&mut vfs, &mut f, b"X\n"), 2);
    failos::fs::vfs::close_file(&mut vfs, f);

    assert_eq!(size_of(&vfs, ino), 16);
    let mut f = open_file(&mut vfs, t, FMode(0o1)).expect("open read");
    let mut buf = vec![0u8; 32];
    assert_eq!(read_file(&vfs, &mut f, &mut buf), 16);
    assert_eq!(&buf[..16], b"Hello, RAMFS!\nX\n");
}

#[test]
fn overwrite_keeps_size() {
    // Overwriting the front changes bytes but not the recorded size.
    let mut vfs = booted();
    let r = root(&vfs);
    let t = create_file(&mut vfs, r, b"t", Mode(0o100644), Uid(0), Gid(0)).expect("create /t");
    let mut f = open_file(&mut vfs, t, FMode(0o2)).expect("open write");
    assert_eq!(write_file(&mut vfs, &mut f, b"Hello, RAMFS!\n"), 14);
    let ino = ino_of(&vfs, t);
    f.f_pos = size_of(&vfs, ino);
    assert_eq!(write_file(&mut vfs, &mut f, b"X\n"), 2);
    failos::fs::vfs::close_file(&mut vfs, f);

    let mut f = open_file(&mut vfs, t, FMode(0o2)).expect("open write at 0");
    assert_eq!(f.f_pos, 0);
    assert_eq!(write_file(&mut vfs, &mut f, b"Hi!"), 3);
    failos::fs::vfs::close_file(&mut vfs, f);

    assert_eq!(size_of(&vfs, ino), 16);
    let mut f = open_file(&mut vfs, t, FMode(0o1)).expect("open read");
    let mut buf = vec![0u8; 32];
    assert_eq!(read_file(&vfs, &mut f, &mut buf), 16);
    assert_eq!(&buf[..16], b"Hi!lo, RAMFS!\nX\n");
}

#[test]
fn write_at_position_zero_fills_gap() {
    // Writing past the end zero-fills the bytes in between.
    let mut vfs = booted();
    let r = root(&vfs);
    let t = create_file(&mut vfs, r, b"gap", Mode(0o100644), Uid(0), Gid(0)).expect("create");
    let mut f = open_file(&mut vfs, t, FMode(0o2)).expect("open");
    f.f_pos = 4;
    assert_eq!(write_file(&mut vfs, &mut f, b"ab"), 2);
    let ino = ino_of(&vfs, t);
    assert_eq!(size_of(&vfs, ino), 6);
    let mut f = open_file(&mut vfs, t, FMode(0o1)).expect("open read");
    let mut buf = vec![0xFFu8; 6];
    assert_eq!(read_file(&vfs, &mut f, &mut buf), 6);
    assert_eq!(&buf[..], &[0, 0, 0, 0, b'a', b'b']);
}

#[test]
fn read_past_end_is_zero() {
    let mut vfs = booted();
    let r = root(&vfs);
    let t = create_file(&mut vfs, r, b"t", Mode(0o100644), Uid(0), Gid(0)).expect("create");
    let mut f = open_file(&mut vfs, t, FMode(0o1)).expect("open");
    f.f_pos = 100;
    let mut buf = vec![0u8; 8];
    assert_eq!(read_file(&vfs, &mut f, &mut buf), 0);
}

#[test]
fn read_on_detached_file_is_error() {
    let vfs = booted();
    let mut f = failos::fs::file::File { f_inode: None, f_mode: FMode(0o1), f_pos: 0 };
    let mut buf = vec![0u8; 8];
    assert_eq!(read_file(&vfs, &mut f, &mut buf), -1);
    let mut f = failos::fs::file::File { f_inode: Some(9999), f_mode: FMode(0o1), f_pos: 0 };
    assert_eq!(read_file(&vfs, &mut f, &mut buf), -1);
}

#[test]
fn allocate_empty_inode_yields_distinct_inos() {
    // Consecutive allocations never reuse a live ino.
    let mut vfs = booted();
    let a = allocate_empty_inode(&mut vfs, Mode(0o100644), Uid(0), Gid(0), None).expect("ino");
    let b = allocate_empty_inode(&mut vfs, Mode(0o100644), Uid(0), Gid(0), None).expect("ino");
    let c = allocate_empty_inode(&mut vfs, Mode(0o100644), Uid(0), Gid(0), None).expect("ino");
    assert_ne!(a, b);
    assert_ne!(b, c);
    assert_ne!(a, c);
    assert_ne!(a, 1, "ino 1 belongs to the root");
    // Each allocated ino really is in the table.
    assert!(vfs.find_inode(a).is_some());
    assert!(vfs.find_inode(b).is_some());
    assert!(vfs.find_inode(c).is_some());
}

#[test]
fn allocate_empty_dentry_is_detached() {
    let mut vfs = booted();
    let d = allocate_empty_dentry(&mut vfs, b"orphan");
    assert!(vfs.dentries[d].d_inode.is_none());
    assert!(vfs.dentries[d].d_parent.is_none());
    assert_eq!(vfs.dentries[d].d_name, b"orphan".to_vec());
    // An unlinked dentry is not reachable by any path.
    assert_eq!(resolve_path(&vfs, b"/orphan"), None);
}

#[test]
fn filesystem_registry_finds_ramfs() {
    let vfs = booted();
    let i = get_filesystem_by_name(&vfs, b"ramfs").expect("ramfs registered");
    assert_eq!(vfs.filesystems[i].name, b"ramfs".to_vec());
    assert!(get_filesystem_by_name(&vfs, b"tmpfs").is_none());
}

#[test]
fn mount_unknown_filesystem_is_none() {
    let mut vfs = Vfs::new();
    assert!(mount_filesystem(&mut vfs, b"ramfs", 1, b"/").is_none());
    failos::fs::ramfs::init_ramfs(&mut vfs);
    assert!(mount_filesystem(&mut vfs, b"nofs", 1, b"/").is_none());
    assert!(mount_filesystem(&mut vfs, b"ramfs", 1, b"/").is_some());
}

#[test]
fn open_file_requires_inode_and_ops() {
    let mut vfs = booted();
    let d = allocate_empty_dentry(&mut vfs, b"bare");
    // A dentry without an inode cannot be opened.
    assert!(open_file(&mut vfs, d, FMode(0o1)).is_none());
    // Out-of-range dentry ids cannot be opened either.
    let n = vfs.dentries.len();
    assert!(open_file(&mut vfs, n, FMode(0o1)).is_none());
}

#[test]
fn path_split_components() {
    let comps = failos::fs::path::split_components(b"/a//b/");
    let view: Vec<Vec<u8>> = comps;
    assert_eq!(view, vec![b"a".to_vec(), b"b".to_vec()]);
    assert!(failos::fs::path::split_components(b"///").is_empty());
    assert!(failos::fs::path::bytes_eq(b"abc", b"abc"));
    assert!(!failos::fs::path::bytes_eq(b"abc", b"abd"));
    assert!(!failos::fs::path::bytes_eq(b"abc", b"ab"));
}
