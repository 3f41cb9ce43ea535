use failos::allocator::HeapAllocator;
use failos::cpuid::{analyze_cpuid, CpuFeatureEcx, CpuFeatureEdx, CpuidLeaf};
use failos::gdt;
use failos::interrupt_idx::InterruptIndex;
use failos::logging::{LogLevel, Logger};
use failos::memory::{
    create_user_page_table, init_heap, BootInfoFrameAllocator, MapError, Mapper, MemoryRegion,
    MemoryRegionKind, PageTable, PAGE_PRESENT, PAGE_USER_ACCESSIBLE, PAGE_WRITABLE,
};
use failos::serial::SerialPort;
use failos::task::Task;
use failos::time::Pit;
use failos::userspace::{build_iret_frame, userspace_setup};

fn leaf(eax: u32, ebx: u32, ecx: u32, edx: u32) -> CpuidLeaf {
    CpuidLeaf { eax, ebx, ecx, edx }
}

#[test]
fn frame_allocator_walks_usable_regions_in_order() {
    let mut fa = BootInfoFrameAllocator::init(vec![
        MemoryRegion { start: 0x1000, end: 0x3000, kind: MemoryRegionKind::Usable },
        MemoryRegion { start: 0x8000, end: 0x9000, kind: MemoryRegionKind::Reserved },
        MemoryRegion { start: 0x10000, end: 0x12000, kind: MemoryRegionKind::Usable },
    ]);
    assert_eq!(fa.allocate_frame(), Some(0x1000));
    assert_eq!(fa.allocate_frame(), Some(0x2000));
    assert_eq!(fa.allocate_frame(), Some(0x10000));
    assert_eq!(fa.allocate_frame(), Some(0x11000));
    assert_eq!(fa.allocate_frame(), None);
}

#[test]
fn frame_allocator_aligns_unaligned_region_starts() {
    let mut fa = BootInfoFrameAllocator::init(vec![MemoryRegion {
        start: 0x1800,
        end: 0x3000,
        kind: MemoryRegionKind::Usable,
    }]);
    // Stepped addresses 0x1800 and 0x2800, each aligned down.
    assert_eq!(fa.allocate_frame(), Some(0x1000));
    assert_eq!(fa.allocate_frame(), Some(0x2000));
    assert_eq!(fa.allocate_frame(), None);
}

#[test]
fn user_page_table_clone_keeps_kernel_half_only() {
    let mut entries = vec![0u64; 512];
    entries[0] = 0x7000 | PAGE_PRESENT | PAGE_USER_ACCESSIBLE;  // user entry: dropped
    entries[256] = 0x1000 | PAGE_PRESENT | PAGE_WRITABLE;  // kernel entry: kept
    entries[300] = 0x2000;  // not present: dropped
    entries[511] = 0x3000 | PAGE_PRESENT;
    let kernel = PageTable { entries };
    let mut fa = BootInfoFrameAllocator::init(vec![MemoryRegion {
        start: 0x100000,
        end: 0x101000,
        kind: MemoryRegionKind::Usable,
    }]);
    let (frame, user) = create_user_page_table(&mut fa, &kernel).expect("clone");
    assert_eq!(frame, 0x100000);
    assert_eq!(user.entries[0], 0, "user-accessible entries never survive");
    assert_eq!(user.entries[256], 0x1000 | PAGE_PRESENT | PAGE_WRITABLE);
    assert_eq!(user.entries[300], 0, "non-present entries are not copied");
    assert_eq!(user.entries[511], 0x3000 | PAGE_PRESENT);
}

#[test]
fn task_creation_needs_a_frame() {
    let kernel = PageTable { entries: vec![0u64; 512] };
    let mut fa = BootInfoFrameAllocator::init(vec![MemoryRegion {
        start: 0x100000,
        end: 0x101000,
        kind: MemoryRegionKind::Usable,
    }]);
    let t = Task::new(7, 1, &mut fa, &kernel).expect("one frame available");
    assert_eq!(t.pid, 7);
    assert_eq!(t.ppid, 1);
    assert_eq!(t.next_fd, 3);
    assert!(t.file_descriptors.is_empty());
    assert!(Task::new(8, 1, &mut fa, &kernel).is_none());
}

#[test]
fn heap_mapping_covers_every_page() {
    let mut mapper = Mapper::new(0x100000);
    let mut fa = BootInfoFrameAllocator::init(vec![MemoryRegion {
        start: 0x200000,
        end: 0x300000,
        kind: MemoryRegionKind::Usable,
    }]);
    init_heap(0x4000_0000, 0x4000, &mut mapper, &mut fa).expect("map 4 pages");
    assert_eq!(mapper.mappings.len(), 4);
    for (i, m) in mapper.mappings.iter().enumerate() {
        assert_eq!(m.0, 0x4000_0000 + 4096 * i as u64);
        assert_eq!(m.1, 0x200000 + 4096 * i as u64);
        assert_eq!(m.2, PAGE_PRESENT | PAGE_WRITABLE);
    }
    // Mapping the same range again hits the already-mapped page.
    assert_eq!(
        init_heap(0x4000_0000, 0x4000, &mut mapper, &mut fa),
        Err(MapError::PageAlreadyMapped)
    );
}

#[test]
fn heap_mapping_fails_when_frames_run_out() {
    let mut mapper = Mapper::new(0x100000);
    let mut fa = BootInfoFrameAllocator::init(vec![MemoryRegion {
        start: 0x200000,
        end: 0x202000,
        kind: MemoryRegionKind::Usable,
    }]);
    assert_eq!(
        init_heap(0x4000_0000, 0x4000, &mut mapper, &mut fa),
        Err(MapError::FrameAllocationFailed)
    );
}

#[test]
fn userspace_layout() {
    let mut mapper = Mapper::new(0x100000);
    let mut fa = BootInfoFrameAllocator::init(vec![MemoryRegion {
        start: 0x200000,
        end: 0x210000,
        kind: MemoryRegionKind::Usable,
    }]);
    let layout = userspace_setup(&mut mapper, &mut fa).expect("two frames");
    assert_eq!(layout.entry, 0x1000);
    assert_eq!(layout.user_rsp, 0x7FFF_FFFF_F000 + 4096 - 2048);
    assert_eq!(layout.stack_frame, 0x200000);
    assert_eq!(layout.code_frame, 0x201000);
    let frame = build_iret_frame(0x23, 0x2B, layout.user_rsp, layout.entry, 0);
    assert_eq!(frame, [0x23, layout.user_rsp, 0x200, 0x2B, 0x1000]);
}

#[test]
fn gdt_layout_matches_star_constraints() {
    let s = gdt::init_gdt();
    assert_eq!(s.kernel_code_selector, 0x08);
    assert_eq!(s.kernel_data_selector, 0x10);
    assert_eq!(s.user_code32_selector, 0x1B);
    assert_eq!(s.user_data_selector, 0x23);
    assert_eq!(s.user_code_selector, 0x2B);
    assert_eq!(s.tss_selector, 0x30);
    assert_eq!(s.user_code32_selector, s.user_code_selector - 16);
    assert_eq!(s.kernel_data_selector, s.kernel_code_selector + 8);
    assert_eq!(gdt::init_tss(0x5000, gdt::DOUBLE_FAULT_STACK_SIZE), 0x5000 + 4096 * 5);
}

#[test]
fn bump_allocator_aligns_and_exhausts() {
    let mut a = HeapAllocator::new(0x1001, 0x1000);
    let p1 = a.allocate(8, 8).expect("first block");
    assert_eq!(p1 % 8, 0);
    assert_eq!(p1, 0x1008);
    let p2 = a.allocate(16, 16).expect("second block");
    assert_eq!(p2, 0x1010);
    assert_eq!(a.allocate(0x10000, 1), None, "too large for the region");
    let p3 = a.allocate(1, 1).expect("bump continues after a failure");
    assert_eq!(p3, 0x1020);
    a.dealloc(p1);
}

#[test]
fn cpuid_decode() {
    // "GenuineIntel": EBX="Genu", EDX="ineI", ECX="ntel".
    let l0 = leaf(13, 0x756E6547, 0x6C65746E, 0x49656E69);
    let l1 = leaf(0, 0x00020800, 0x0098_0201, 0x1789_FBFF);
    let e0 = leaf(0x8000_0008, 0, 0, 0);
    let l4 = leaf(0x1C00_4121, 0, 0, 0);
    let e8 = leaf(0, 0, 0x3, 0);
    // "Demo CPU @ 1GHz" padded with NULs across the three name leaves.
    let n2 = leaf(0x6F6D6544, 0x55504320, 0x31204020, 0x7A684747);
    let info = analyze_cpuid(l0, l1, e0, n2, leaf(0, 0, 0, 0), leaf(0, 0, 0, 0), l4, e8);
    assert_eq!(info.vendor, b"GenuineIntel".to_vec());
    assert_eq!(info.max_standard_leaf, 13);
    assert_eq!(info.max_extended_leaf, 0x8000_0008);
    assert_eq!(info.features_ecx, 0x0098_0201);
    assert_eq!(info.features_edx, 0x1789_FBFF);
    assert_eq!(info.threads_per_core, 2);
    assert_eq!(&info.processor_name[..8], b"Demo CPU");
    assert_eq!(info.processor_name.len(), 48);
    // Leaf 4 wins over extended leaf 8: bits 26..32 of EAX plus one.
    assert_eq!(info.cores_per_package, 8);
    assert!(info.has_feature_ecx(CpuFeatureEcx::Sse3));
    assert!(!info.has_feature_ecx(CpuFeatureEcx::Avx));
    assert!(info.has_feature_edx(CpuFeatureEdx::Fpu));
    assert!(!info.has_feature_edx(CpuFeatureEdx::Ia64));
}

#[test]
fn cpuid_without_leaf_one() {
    let l0 = leaf(0, 0x756E6547, 0x6C65746E, 0x49656E69);
    let l1 = leaf(0, 0xFFFF_FFFF, 0xFFFF_FFFF, 0xFFFF_FFFF);
    let e0 = leaf(0, 0, 0, 0);
    let z = leaf(0, 0, 0, 0);
    let info = analyze_cpuid(l0, l1, e0, z, z, z, z, z);
    assert_eq!(info.features_ecx, 0);
    assert_eq!(info.features_edx, 0);
    assert_eq!(info.threads_per_core, 1);
    assert_eq!(info.cores_per_package, 0);
    assert_eq!(info.processor_name, vec![0u8; 48]);
}

#[test]
fn serial_init_sequence_is_8n1_fifo() {
    let port = SerialPort::new(0x3F8);
    assert_eq!(port.port, 0x3F8);
    let seq = port.init_sequence();
    assert_eq!(
        seq,
        vec![
            (1, 0x00),
            (3, 0x80),
            (0, 0x03),
            (1, 0x00),
            (3, 0x03),
            (2, 0xC7),
            (4, 0x0B),
        ]
    );
    assert_eq!(port.exists_probe(), (7, 0x55));
}

#[test]
fn log_level_filtering() {
    let mut logger = Logger::new();
    assert!(logger.should_log(LogLevel::Debug));
    logger.set_log_level(LogLevel::Warn);
    assert!(logger.should_log(LogLevel::Fatal));
    assert!(logger.should_log(LogLevel::Warn));
    assert!(!logger.should_log(LogLevel::Info));
    assert!(!logger.should_log(LogLevel::Debug));
    logger.set_log_level(LogLevel::Off);
    assert!(!logger.should_log(LogLevel::Fatal));
}

#[test]
fn pit_ticks_and_reload_bytes() {
    let mut pit = Pit::new(0);
    assert_eq!(pit.get_pit_tick_count(), 0);
    pit.tick();
    pit.tick();
    assert_eq!(pit.get_pit_tick_count(), 2);
    let (lo, hi) = pit.set_pit_tick_count(0x1234);
    assert_eq!((lo, hi), (0x34, 0x12));
    assert_eq!(pit.get_pit_tick_count(), 0x1234);
    assert_eq!(failos::time::PIT_FREQUENCY, 1193182);
}

#[test]
fn interrupt_vectors_follow_the_remap() {
    assert_eq!(InterruptIndex::Timer.as_u8(), 32);
    assert_eq!(InterruptIndex::Keyboard.as_u8(), 33);
    assert_eq!(InterruptIndex::Lpt1.as_u8(), 39);
    assert_eq!(failos::interrupt_idx::PIC_1_OFFSET, 32);
    assert_eq!(failos::interrupt_idx::PIC_2_OFFSET, 40);
}
