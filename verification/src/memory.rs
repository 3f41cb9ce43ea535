//! Physical frame allocation and the four-level page-table model: cloning
//! the kernel address space for a task, mapping the kernel heap, and mapping
//! user pages. The hardware walk happens through the physical-memory window
//! at [`PHYSICAL_MEMORY_OFFSET`]; this module holds the entry values and the
//! decisions about them.

use vstd::prelude::*;

verus! {

/// Fixed virtual address at which all physical memory is mapped.
pub const PHYSICAL_MEMORY_OFFSET: u64 = 0x0000_1000_0000_0000;

/// First virtual address of the kernel heap.
pub const HEAP_START: u64 = 0x0000_2000_0000_0000;

/// Initial kernel heap size in bytes.
pub const HEAP_SIZE: u64 = 1024 * 1024;

/// First virtual address of the user code region.
pub const USERSPACE_CODE_START: u64 = 0x1000;

/// Top page of the user stack region.
pub const USERSPACE_STACK_START: u64 = 0x7FFF_FFFF_F000;

/// User stack size in bytes.
pub const USERSPACE_STACK_SIZE: u64 = 1024 * 1024;

/// First virtual address of the user heap region.
pub const USERSPACE_HEAP_START: u64 = 0x5555_5555_0000;

/// First PML4 slot of the kernel half of every address space.
pub const KERNEL_PML4_INDEX: usize = 256;

/// Page-table entry flag: the entry is present.
pub const PAGE_PRESENT: u64 = 1;

/// Page-table entry flag: the mapping is writable.
pub const PAGE_WRITABLE: u64 = 2;

/// Page-table entry flag: ring 3 may use the mapping.
pub const PAGE_USER_ACCESSIBLE: u64 = 4;

/// Page-table entry flag: the entry maps a huge page.
pub const PAGE_HUGE: u64 = 0x80;

/// Page-table entry flag: no instruction fetches through this mapping.
pub const PAGE_NO_EXECUTE: u64 = 0x8000_0000_0000_0000;

/// The address bits of a page-table entry.
pub const PAGE_ADDR_MASK: u64 = 0x000F_FFFF_FFFF_F000;

/// Whether a page-table entry has the present bit.
pub open spec fn entry_present(e: u64) -> bool {
    e & PAGE_PRESENT == PAGE_PRESENT
}

/// Whether a page-table entry has the user-accessible bit.
pub open spec fn entry_user(e: u64) -> bool {
    e & PAGE_USER_ACCESSIBLE == PAGE_USER_ACCESSIBLE
}

/// The kind of a physical memory region reported at boot.
#[derive(Clone, Copy, PartialEq, Eq, Structural, Debug)]
pub enum MemoryRegionKind {
    /// Free for the frame allocator.
    Usable,
    /// Owned by firmware, the boot path, or devices: never allocated.
    Reserved,
}

/// One physical memory region from the boot-time memory map.
#[derive(Clone, Copy, PartialEq, Eq, Structural, Debug)]
pub struct MemoryRegion {
    /// First physical address of the region.
    pub start: u64,
    /// First physical address past the region.
    pub end: u64,
    pub kind: MemoryRegionKind,
}

/// The 4 KiB-aligned frames a single region yields: one per page step from
/// its start, each aligned down.
pub open spec fn region_frames(r: MemoryRegion) -> Seq<u64> {
    if r.kind == MemoryRegionKind::Usable && r.start < r.end {
        Seq::new(
            (((r.end - r.start - 1) / 4096) + 1) as nat,
            |i: int| (((r.start + 4096 * i) / 4096) * 4096) as u64,
        )
    } else {
        Seq::<u64>::empty()
    }
}

/// All frames the memory map yields, region after region.
pub open spec fn all_frames(regions: Seq<MemoryRegion>) -> Seq<u64>
    decreases regions.len(),
{
    if regions.len() == 0 {
        Seq::<u64>::empty()
    } else {
        region_frames(regions.first()) + all_frames(regions.drop_first())
    }
}

/// Hands out 4 KiB frames from the usable regions of the boot memory map,
/// in order, never reusing one.
#[verifier::ext_equal]
pub struct BootInfoFrameAllocator {
    pub memory_map: Vec<MemoryRegion>,
    /// Position of the next frame to hand out in [`all_frames`].
    pub next: usize,
}

impl BootInfoFrameAllocator {
    /// Wraps a boot-time memory map; allocation starts at its first usable
    /// frame.
    pub fn init(memory_map: Vec<MemoryRegion>) -> (r: BootInfoFrameAllocator)
        ensures
            r.memory_map == memory_map,
            r.next == 0,
    {
        BootInfoFrameAllocator { memory_map, next: 0 }
    }

    /// The frames this allocator walks.
    pub open spec fn frames(self) -> Seq<u64> {
        all_frames(self.memory_map@)
    }

    /// Hands out the next usable frame, or `None` once the map is exhausted.
    pub fn allocate_frame(&mut self) -> (r: Option<u64>)
        requires
            old(self).next < usize::MAX,
        ensures
            final(self).memory_map == old(self).memory_map,
            final(self).next == old(self).next + 1,
            r == if old(self).next < old(self).frames().len() {
                Some(old(self).frames()[old(self).next as int])
            } else {
                None::<u64>
            },
    {
        let target64: u64 = self.next as u64;
        self.next = self.next + 1;
        let ghost whole = all_frames(old(self).memory_map@);
        let n = self.memory_map.len();
        let mut t: usize = 0;
        let mut skipped: u64 = 0;
        proof {
            assert(self.memory_map@.skip(0) =~= self.memory_map@);
            assert(whole.skip(0) =~= whole);
        }
        while t < n
            invariant
                n == self.memory_map@.len(),
                t <= n,
                skipped <= target64,
                self.memory_map == old(self).memory_map,
                self.next == old(self).next + 1,
                whole == all_frames(old(self).memory_map@),
                whole.len() >= skipped,
                // What remains to scan yields exactly the frames past the
                // ones already skipped.
                all_frames(self.memory_map@.skip(t as int)) == whole.skip(skipped as int),
                target64 == old(self).next,
            decreases n - t,
        {
            let region = self.memory_map[t];
            let ghost rem = self.memory_map@.skip(t as int);
            proof {
                assert(rem.first() == region);
                assert(rem.drop_first() =~= self.memory_map@.skip(t + 1));
            }
            let usable = match region.kind {
                MemoryRegionKind::Usable => true,
                MemoryRegionKind::Reserved => false,
            };
            if usable && region.start < region.end {
                let count: u64 = ((region.end - region.start - 1) / 4096) + 1;
                assert(region_frames(region).len() == count);
                if target64 - skipped < count {
                    let idx: u64 = target64 - skipped;
                    proof {
                        // The stepped address stays inside the region.
                        vstd::arithmetic::div_mod::lemma_fundamental_div_mod(
                            (region.end - region.start - 1) as int,
                            4096,
                        );
                        assert(4096 * ((region.end - region.start - 1) as int / 4096) <= (
                        region.end - region.start - 1) as int);
                        vstd::arithmetic::mul::lemma_mul_inequality(
                            idx as int,
                            (region.end - region.start - 1) as int / 4096,
                            4096,
                        );
                        vstd::arithmetic::mul::lemma_mul_is_commutative(
                            idx as int,
                            4096,
                        );
                        assert(4096 * (idx as int) <= (region.end - region.start - 1) as int);
                    }
                    let addr: u64 = region.start + 4096 * idx;
                    let frame: u64 = (addr / 4096) * 4096;
                    proof {
                        let rf = region_frames(region);
                        assert(rf[idx as int] == frame);
                        assert(all_frames(rem) == rf + all_frames(rem.drop_first()));
                        assert(all_frames(rem)[idx as int] == rf[idx as int]);
                        assert(whole.skip(skipped as int).len() == whole.len() - skipped);
                        assert(whole.skip(skipped as int)[idx as int] == whole[skipped + idx]);
                        assert(whole[target64 as int] == frame);
                        assert(skipped + idx < whole.len());
                        assert(old(self).next < whole.len());
                    }
                    return Some(frame);
                }
                let ghost old_skipped = skipped;
                skipped = skipped + count;
                proof {
                    let rest = rem.drop_first();
                    assert(all_frames(rem) == region_frames(region) + all_frames(rest));
                    assert(whole.skip(old_skipped as int) == all_frames(rem));
                    assert(whole.skip(old_skipped as int).len() == whole.len() - old_skipped);
                    assert(whole.skip(skipped as int) =~= all_frames(rest)) by {
                        assert(whole.skip(skipped as int).len() == all_frames(rest).len());
                        assert forall|x: int| 0 <= x < all_frames(rest).len() implies whole.skip(
                            skipped as int,
                        )[x] == all_frames(rest)[x] by {
                            assert(whole.skip(skipped as int)[x] == whole[skipped + x]);
                            assert(whole.skip(old_skipped as int)[count + x] == whole[old_skipped
                                + count + x]);
                            assert(all_frames(rem)[count + x] == all_frames(rest)[x]);
                        }
                    }
                }
            } else {
                proof {
                    assert(region_frames(region) =~= Seq::<u64>::empty());
                    assert(all_frames(rem) =~= all_frames(rem.drop_first()));
                }
            }
            t = t + 1;
        }
        proof {
            assert(self.memory_map@.skip(n as int) =~= Seq::<MemoryRegion>::empty());
            assert(whole.skip(skipped as int).len() == 0);
            assert(whole.skip(skipped as int).len() == whole.len() - skipped);
            assert(whole.len() == skipped);
            assert(!(old(self).next < whole.len()));
        }
        None
    }
}

/// A modeled PML4: 512 entries, each a raw entry value.
#[verifier::ext_equal]
pub struct PageTable {
    pub entries: Vec<u64>,
}

impl PageTable {
    /// A PML4 holds exactly 512 entries.
    pub open spec fn wf(self) -> bool {
        self.entries@.len() == 512
    }
}

/// How a user PML4 comes out of cloning the kernel PML4: every present,
/// kernel-only entry is copied as is; every other slot is left empty. In
/// particular no entry with the user-accessible bit survives the copy.
pub open spec fn user_clone_of(kernel: PageTable, user: PageTable) -> bool {
    &&& user.wf()
    &&& forall|i: int|
        0 <= i < 512 ==> user.entries@[i] == (if entry_present(kernel.entries@[i]) && !entry_user(
            kernel.entries@[i],
        ) {
            kernel.entries@[i]
        } else {
            0u64
        })
}

/// Builds a task's PML4: allocates a frame for it and copies every present
/// kernel-only entry of the current kernel PML4, leaving user slots empty.
/// Returns the new table's frame and contents, or `None` with nothing
/// changed but the cursor when no frame is left.
pub fn create_user_page_table(
    frame_allocator: &mut BootInfoFrameAllocator,
    kernel_pt: &PageTable,
) -> (r: Option<(u64, PageTable)>)
    requires
        old(frame_allocator).next < usize::MAX,
        kernel_pt.wf(),
    ensures
        final(frame_allocator).memory_map == old(frame_allocator).memory_map,
        final(frame_allocator).next == old(frame_allocator).next + 1,
        match r {
            Some((frame, pt)) => {
                &&& old(frame_allocator).next < old(frame_allocator).frames().len()
                &&& frame == old(frame_allocator).frames()[old(frame_allocator).next as int]
                &&& user_clone_of(*kernel_pt, pt)
            },
            None => old(frame_allocator).next >= old(frame_allocator).frames().len(),
        },
{
    let frame = match frame_allocator.allocate_frame() {
        Some(f) => f,
        None => {
            return None;
        },
    };
    let mut entries: Vec<u64> = Vec::new();
    let mut i: usize = 0;
    while i < 512
        invariant
            i <= 512,
            kernel_pt.wf(),
            entries@.len() == i,
            forall|j: int|
                0 <= j < i ==> entries@[j] == (if entry_present(kernel_pt.entries@[j])
                    && !entry_user(kernel_pt.entries@[j]) {
                    kernel_pt.entries@[j]
                } else {
                    0u64
                }),
        decreases 512 - i,
    {
        let e = kernel_pt.entries[i];
        if e & PAGE_PRESENT == PAGE_PRESENT && e & PAGE_USER_ACCESSIBLE != PAGE_USER_ACCESSIBLE {
            entries.push(e);
        } else {
            entries.push(0);
        }
        i = i + 1;
    }
    Some((frame, PageTable { entries }))
}

/// Cloning preserves the kernel half exactly wherever the kernel PML4 keeps
/// its upper half clean: each kernel-half entry that is either empty or
/// present-and-kernel-only comes through unchanged, address and flags alike.
/// (A kernel-half slot holding a user-accessible or stale non-present entry
/// is deliberately not copied.)
pub proof fn lemma_kernel_half_preserved(kernel: PageTable, user: PageTable)
    requires
        kernel.wf(),
        user_clone_of(kernel, user),
        forall|i: int|
            KERNEL_PML4_INDEX <= i < 512 ==> (kernel.entries@[i] == 0 || (entry_present(
                #[trigger] kernel.entries@[i],
            ) && !entry_user(kernel.entries@[i]))),
    ensures
        forall|i: int|
            KERNEL_PML4_INDEX <= i < 512 ==> user.entries@[i] == #[trigger] kernel.entries@[i],
{
    assert forall|i: int| KERNEL_PML4_INDEX <= i < 512 implies user.entries@[i]
        == #[trigger] kernel.entries@[i] by {
        if kernel.entries@[i] == 0 {
            assert(0u64 & 1u64 == 0u64) by (bit_vector);
            assert(!entry_present(0u64));
        }
    }
}

/// Cloning never carries a user-accessible entry into the new table.
pub proof fn lemma_clone_has_no_user_entries(kernel: PageTable, user: PageTable)
    requires
        user_clone_of(kernel, user),
    ensures
        forall|i: int| 0 <= i < 512 ==> !entry_user(#[trigger] user.entries@[i]),
{
    assert forall|i: int| 0 <= i < 512 implies !entry_user(#[trigger] user.entries@[i]) by {
        if user.entries@[i] == 0 {
            assert(0u64 & 4u64 == 0u64) by (bit_vector);
            assert(!entry_user(0u64));
        }
    }
}

} // verus!

verus! {

/// Why a mapping request failed.
#[derive(Clone, Copy, PartialEq, Eq, Structural, Debug)]
pub enum MapError {
    /// The frame allocator ran dry.
    FrameAllocationFailed,
    /// The page already has a mapping.
    PageAlreadyMapped,
}

/// An address space's 4 KiB mappings: one (page, frame, flags) triple per
/// mapped page, pages unique. This is what the hardware walk through the
/// physical-memory window installs.
#[verifier::ext_equal]
pub struct Mapper {
    /// PML4 frame of the address space these mappings belong to.
    pub l4_frame: u64,
    pub mappings: Vec<(u64, u64, u64)>,
}

impl Mapper {
    /// Mapped pages are unique.
    pub open spec fn wf(self) -> bool {
        forall|i: int, j: int|
            0 <= i < j < self.mappings@.len() ==> self.mappings@[i].0 != self.mappings@[j].0
    }

    /// Whether `page` is mapped.
    pub open spec fn maps(self, page: u64) -> bool {
        exists|i: int| 0 <= i < self.mappings@.len() && self.mappings@[i].0 == page
    }

    /// The mapping entry of `page`.
    pub open spec fn mapping_of(self, page: u64) -> (u64, u64, u64) {
        self.mappings@[choose|i: int|
            0 <= i < self.mappings@.len() && self.mappings@[i].0 == page]
    }

    /// With unique pages, any slot holding `page` is the slot `mapping_of`
    /// speaks of.
    pub proof fn lemma_mapping_of(self, page: u64, i: int)
        requires
            self.wf(),
            0 <= i < self.mappings@.len(),
            self.mappings@[i].0 == page,
        ensures
            self.maps(page),
            self.mapping_of(page) == self.mappings@[i],
    {
        assert(self.maps(page));
        let j = choose|j: int| 0 <= j < self.mappings@.len() && self.mappings@[j].0 == page;
        if i < j {
            assert(self.mappings@[i].0 != self.mappings@[j].0);
        } else if j < i {
            assert(self.mappings@[j].0 != self.mappings@[i].0);
        }
    }

    /// An empty address space rooted at the given PML4 frame.
    pub fn new(l4_frame: u64) -> (r: Mapper)
        ensures
            r.wf(),
            r.l4_frame == l4_frame,
            r.mappings@.len() == 0,
    {
        Mapper { l4_frame, mappings: Vec::new() }
    }

    /// Installs a mapping from `page` to `frame` with the given flags;
    /// refuses a page that is already mapped.
    pub fn map_to(&mut self, page: u64, frame: u64, flags: u64) -> (r: Result<(), MapError>)
        requires
            old(self).wf(),
        ensures
            final(self).wf(),
            final(self).l4_frame == old(self).l4_frame,
            match r {
                Ok(()) => {
                    &&& !old(self).maps(page)
                    &&& final(self).mappings@ == old(self).mappings@.push((page, frame, flags))
                    &&& final(self).maps(page)
                    &&& final(self).mapping_of(page) == (page, frame, flags)
                },
                Err(e) => e == MapError::PageAlreadyMapped && old(self).maps(page) && *final(self)
                    == *old(self),
            },
    {
        let n = self.mappings.len();
        let mut i: usize = 0;
        while i < n
            invariant
                *self == *old(self),
                old(self).wf(),
                n == self.mappings@.len(),
                i <= n,
                forall|j: int| 0 <= j < i ==> self.mappings@[j].0 != page,
            decreases n - i,
        {
            if self.mappings[i].0 == page {
                return Err(MapError::PageAlreadyMapped);
            }
            i = i + 1;
        }
        self.mappings.push((page, frame, flags));
        proof {
            self.lemma_mapping_of(page, n as int);
        }
        Ok(())
    }
}

/// The page containing a virtual address.
pub open spec fn page_of(addr: u64) -> u64 {
    ((addr as int / 4096) * 4096) as u64
}

/// Allocates a frame and installs a single user page mapping for the page
/// containing `addr`, with the flags given by the caller (the caller is
/// responsible for the no-execute bit on stacks).
pub fn map_user_page(
    mapper: &mut Mapper,
    frame_allocator: &mut BootInfoFrameAllocator,
    addr: u64,
    flags: u64,
) -> (r: Result<u64, MapError>)
    requires
        old(mapper).wf(),
        old(frame_allocator).next < usize::MAX,
    ensures
        final(mapper).wf(),
        final(mapper).l4_frame == old(mapper).l4_frame,
        final(frame_allocator).memory_map == old(frame_allocator).memory_map,
        final(frame_allocator).next == old(frame_allocator).next + 1,
        match r {
            Ok(frame) => {
                &&& old(frame_allocator).next < old(frame_allocator).frames().len()
                &&& frame == old(frame_allocator).frames()[old(frame_allocator).next as int]
                &&& !old(mapper).maps(page_of(addr))
                &&& final(mapper).mappings@ == old(mapper).mappings@.push(
                    (page_of(addr), frame, flags),
                )
            },
            Err(MapError::FrameAllocationFailed) => old(frame_allocator).next >= old(
                frame_allocator,
            ).frames().len() && *final(mapper) == *old(mapper),
            Err(MapError::PageAlreadyMapped) => old(mapper).maps(page_of(addr)) && *final(mapper)
                == *old(mapper),
        },
{
    let frame = match frame_allocator.allocate_frame() {
        Some(f) => f,
        None => {
            return Err(MapError::FrameAllocationFailed);
        },
    };
    let page: u64 = (addr / 4096) * 4096;
    match mapper.map_to(page, frame, flags) {
        Ok(()) => Ok(frame),
        Err(e) => Err(e),
    }
}

/// Maps the kernel heap: one fresh frame per page of
/// `[heap_start, heap_start + heap_size)`, each present and writable.
/// Returns the mapping error when the allocator runs dry or a heap page is
/// already mapped; earlier pages of the range stay mapped in that case.
pub fn init_heap(
    heap_start: u64,
    heap_size: u64,
    mapper: &mut Mapper,
    frame_allocator: &mut BootInfoFrameAllocator,
) -> (r: Result<(), MapError>)
    requires
        old(mapper).wf(),
        heap_size > 0,
        heap_start + heap_size - 1 <= u64::MAX,
        old(frame_allocator).next + (heap_size as int + 4095) / 4096 < usize::MAX,
    ensures
        final(mapper).wf(),
        final(mapper).l4_frame == old(mapper).l4_frame,
        final(frame_allocator).memory_map == old(frame_allocator).memory_map,
        // Existing mappings survive untouched.
        forall|p: u64|
            old(mapper).maps(p) ==> #[trigger] final(mapper).maps(p) && final(mapper).mapping_of(p)
                == old(mapper).mapping_of(p),
        match r {
            Ok(()) => forall|i: int|
                0 <= i <= (page_of((heap_start + heap_size - 1) as u64) - page_of(heap_start))
                    / 4096 ==> #[trigger] final(mapper).maps((page_of(heap_start) + 4096 * i) as u64)
                    && final(mapper).mapping_of((page_of(heap_start) + 4096 * i) as u64).2
                    == PAGE_PRESENT | PAGE_WRITABLE,
            Err(MapError::FrameAllocationFailed) => final(frame_allocator).next > final(frame_allocator).frames().len(),
            Err(MapError::PageAlreadyMapped) => exists|p: u64|
                old(mapper).maps(p) && page_of(heap_start) <= p <= page_of(
                    (heap_start + heap_size - 1) as u64,
                ),
        },
{
    let start_page: u64 = (heap_start / 4096) * 4096;
    let end_page: u64 = ((heap_start + (heap_size - 1)) / 4096) * 4096;
    let n_pages: u64 = (end_page - start_page) / 4096 + 1;
    proof {
        vstd::arithmetic::div_mod::lemma_fundamental_div_mod(heap_start as int, 4096);
        vstd::arithmetic::div_mod::lemma_fundamental_div_mod(
            (heap_start + heap_size - 1) as int,
            4096,
        );
        assert(start_page <= end_page);
        assert(start_page + 4096 * (n_pages - 1) == end_page) by {
            vstd::arithmetic::div_mod::lemma_fundamental_div_mod(
                (end_page - start_page) as int,
                4096,
            );
            assert((end_page - start_page) as int % 4096 == 0) by {
                vstd::arithmetic::div_mod::lemma_mod_adds(
                    end_page as int,
                    -(start_page as int),
                    4096,
                );
                assert(end_page as int % 4096 == 0) by {
                    vstd::arithmetic::div_mod::lemma_mod_multiples_basic(
                        (heap_start + heap_size - 1) as int / 4096,
                        4096,
                    );
                }
                assert(start_page as int % 4096 == 0) by {
                    vstd::arithmetic::div_mod::lemma_mod_multiples_basic(
                        heap_start as int / 4096,
                        4096,
                    );
                }
            }
        }
        assert(n_pages - 1 <= (heap_size as int + 4095) / 4096) by (nonlinear_arith)
            requires
                heap_size > 0,
                heap_start + heap_size - 1 <= u64::MAX,
                start_page == (heap_start as int / 4096) * 4096,
                end_page == ((heap_start + heap_size - 1) as int / 4096) * 4096,
                n_pages == (end_page - start_page) as int / 4096 + 1,
        ;
    }
    let mut i: u64 = 0;
    let ghost base = old(mapper).mappings@.len() as int;
    while i < n_pages
        invariant
            old(mapper).wf(),
            mapper.wf(),
            mapper.l4_frame == old(mapper).l4_frame,
            frame_allocator.memory_map == old(frame_allocator).memory_map,
            frame_allocator.next == old(frame_allocator).next + i,
            old(frame_allocator).next + (heap_size as int + 4095) / 4096 < usize::MAX,
            i <= n_pages,
            n_pages - 1 <= (heap_size as int + 4095) / 4096,
            start_page + 4096 * (n_pages - 1) <= u64::MAX,
            page_of(heap_start) == start_page,
            page_of((heap_start + heap_size - 1) as u64) == end_page,
            start_page + 4096 * (n_pages - 1) == end_page,
            base == old(mapper).mappings@.len(),
            mapper.mappings@.len() == base + i,
            forall|w: int| 0 <= w < base ==> mapper.mappings@[w] == old(mapper).mappings@[w],
            forall|w: int|
                base <= w < base + i ==> (#[trigger] mapper.mappings@[w]).0 == (start_page + 4096
                    * (w - base)) as u64 && mapper.mappings@[w].2 == PAGE_PRESENT | PAGE_WRITABLE,
        decreases n_pages - i,
    {
        let page: u64 = start_page + 4096 * i;
        let frame = match frame_allocator.allocate_frame() {
            Some(f) => f,
            None => {
                return Err(MapError::FrameAllocationFailed);
            },
        };
        let ghost pre = *mapper;
        match mapper.map_to(page, frame, PAGE_PRESENT | PAGE_WRITABLE) {
            Ok(()) => {},
            Err(e) => {
                proof {
                    assert(pre.maps(page));
                    // The already-present mapping cannot be one of this
                    // loop's own: those cover strictly earlier pages.
                    let w = choose|w: int|
                        0 <= w < pre.mappings@.len() && pre.mappings@[w].0 == page;
                    if w >= base {
                        assert(pre.mappings@[w].0 == (start_page + 4096 * (w - base)) as u64);
                        assert(start_page + 4096 * (w - base) < start_page + 4096 * i);
                        assert(false);
                    }
                    assert(old(mapper).mappings@[w].0 == page);
                    assert(old(mapper).maps(page));
                    assert(page_of(heap_start) <= page <= page_of(
                        (heap_start + heap_size - 1) as u64,
                    ));
                }
                return Err(e);
            },
        }
        i = i + 1;
    }
    proof {
        // Every mapping from before the loop survived, unchanged.
        assert forall|p: u64| old(mapper).maps(p) implies #[trigger] mapper.maps(p)
            && mapper.mapping_of(p) == old(mapper).mapping_of(p) by {
            let w = choose|w: int|
                0 <= w < old(mapper).mappings@.len() && old(mapper).mappings@[w].0 == p;
            old(mapper).lemma_mapping_of(p, w);
            assert(mapper.mappings@[w] == old(mapper).mappings@[w]);
            mapper.lemma_mapping_of(p, w);
        }
        // Every heap page got its present-and-writable mapping.
        assert forall|k: int|
            0 <= k <= (page_of((heap_start + heap_size - 1) as u64) - page_of(heap_start)) / 4096
            implies #[trigger] mapper.maps((page_of(heap_start) + 4096 * k) as u64)
            && mapper.mapping_of((page_of(heap_start) + 4096 * k) as u64).2 == PAGE_PRESENT
            | PAGE_WRITABLE by {
            assert((end_page - start_page) as int / 4096 == n_pages - 1) by {
                vstd::arithmetic::div_mod::lemma_fundamental_div_mod(
                    (end_page - start_page) as int,
                    4096,
                );
                assert(4096 * (n_pages - 1) == (end_page - start_page) as int);
                vstd::arithmetic::div_mod::lemma_mod_multiples_basic(n_pages - 1, 4096);
                vstd::arithmetic::div_mod::lemma_div_multiples_vanish(n_pages - 1, 4096);
            }
            assert(0 <= k < n_pages);
            assert(mapper.mappings@[base + k].0 == (start_page + 4096 * k) as u64);
            mapper.lemma_mapping_of((start_page + 4096 * k) as u64, base + k);
        }
    }
    Ok(())
}

} // verus!

verus! {

/// A well-formed boot memory map: every region has page-aligned bounds, and
/// regions come in increasing address order without overlap.
pub open spec fn memory_map_wf(regions: Seq<MemoryRegion>) -> bool {
    &&& forall|i: int|
        0 <= i < regions.len() ==> (#[trigger] regions[i]).start % 4096 == 0 && regions[i].end
            % 4096 == 0
    &&& forall|i: int, j: int| 0 <= i < j < regions.len() ==> regions[i].end <= regions[j].start
}

/// With a page-aligned start, a region's frames are exactly its start plus
/// page-sized steps, and each stays inside the region.
proof fn lemma_region_frames_exact(r: MemoryRegion)
    requires
        r.start % 4096 == 0,
    ensures
        forall|i: int|
            0 <= i < region_frames(r).len() ==> #[trigger] region_frames(r)[i] == r.start + 4096
                * i && r.start <= region_frames(r)[i] < r.end,
{
    assert forall|i: int| 0 <= i < region_frames(r).len() implies #[trigger] region_frames(r)[i]
        == r.start + 4096 * i && r.start <= region_frames(r)[i] < r.end by {
        let x = r.start + 4096 * i;
        vstd::arithmetic::div_mod::lemma_mod_multiples_vanish(i, r.start as int, 4096);
        assert(x % 4096 == 0);
        vstd::arithmetic::div_mod::lemma_fundamental_div_mod(x, 4096);
        assert((x / 4096) * 4096 == x) by {
            vstd::arithmetic::mul::lemma_mul_is_commutative(4096, x / 4096);
        }
        // The step stays below the region's end.
        vstd::arithmetic::div_mod::lemma_fundamental_div_mod((r.end - r.start - 1) as int, 4096);
        assert(4096 * ((r.end - r.start - 1) as int / 4096) <= (r.end - r.start - 1) as int);
        vstd::arithmetic::mul::lemma_mul_inequality(i, (r.end - r.start - 1) as int / 4096, 4096);
        vstd::arithmetic::mul::lemma_mul_is_commutative(i, 4096);
        assert(4096 * i <= (r.end - r.start - 1) as int);
    }
}

/// Every frame of a map whose regions all start at or above `b` lies at or
/// above `b`.
proof fn lemma_all_frames_lower_bound(regions: Seq<MemoryRegion>, b: int)
    requires
        forall|k: int| 0 <= k < regions.len() ==> b <= (#[trigger] regions[k]).start,
        forall|k: int| 0 <= k < regions.len() ==> (#[trigger] regions[k]).start % 4096 == 0,
    ensures
        forall|x: int|
            0 <= x < all_frames(regions).len() ==> b <= #[trigger] all_frames(regions)[x],
    decreases regions.len(),
{
    if regions.len() == 0 {
    } else {
        let first = regions.first();
        let rest = regions.drop_first();
        assert(forall|k: int| 0 <= k < rest.len() ==> rest[k] == regions[k + 1]);
        lemma_all_frames_lower_bound(rest, b);
        lemma_region_frames_exact(first);
        assert forall|x: int| 0 <= x < all_frames(regions).len() implies b
            <= #[trigger] all_frames(regions)[x] by {
            let rf = region_frames(first);
            assert(all_frames(regions) == rf + all_frames(rest));
            if x < rf.len() {
                assert(all_frames(regions)[x] == rf[x]);
            } else {
                assert(all_frames(regions)[x] == all_frames(rest)[x - rf.len()]);
            }
        }
    }
}

/// Under a well-formed memory map the frame sequence is strictly increasing.
proof fn lemma_all_frames_increasing(regions: Seq<MemoryRegion>)
    requires
        memory_map_wf(regions),
    ensures
        forall|i: int, j: int|
            0 <= i < j < all_frames(regions).len() ==> all_frames(regions)[i] < all_frames(
                regions,
            )[j],
    decreases regions.len(),
{
    if regions.len() == 0 {
    } else {
        let first = regions.first();
        let rest = regions.drop_first();
        assert(forall|k: int| 0 <= k < rest.len() ==> rest[k] == regions[k + 1]);
        assert(memory_map_wf(rest));
        lemma_all_frames_increasing(rest);
        lemma_region_frames_exact(first);
        assert(forall|k: int| 0 <= k < rest.len() ==> first.end <= (#[trigger] rest[k]).start);
        lemma_all_frames_lower_bound(rest, first.end as int);
        let rf = region_frames(first);
        assert forall|i: int, j: int| 0 <= i < j < all_frames(regions).len() implies all_frames(
            regions,
        )[i] < all_frames(regions)[j] by {
            assert(all_frames(regions) == rf + all_frames(rest));
            if j < rf.len() {
                assert(rf[i] == first.start + 4096 * i && rf[j] == first.start + 4096 * j);
            } else if i < rf.len() {
                assert(all_frames(regions)[i] == rf[i] && rf[i] < first.end);
                assert(all_frames(regions)[j] == all_frames(rest)[j - rf.len()]);
                assert(first.end as int <= all_frames(rest)[j - rf.len()]);
            } else {
                assert(all_frames(regions)[i] == all_frames(rest)[i - rf.len()]);
                assert(all_frames(regions)[j] == all_frames(rest)[j - rf.len()]);
            }
        }
    }
}

/// Frames never repeat: under a well-formed memory map the frame sequence is
/// pairwise distinct, so successive `allocate_frame` calls — each returning
/// the frame at the advancing cursor — hand out pairwise distinct frames.
pub proof fn lemma_frames_pairwise_distinct(regions: Seq<MemoryRegion>)
    requires
        memory_map_wf(regions),
    ensures
        forall|i: int, j: int|
            0 <= i < j < all_frames(regions).len() ==> all_frames(regions)[i] != all_frames(
                regions,
            )[j],
{
    lemma_all_frames_increasing(regions);
}

} // verus!
