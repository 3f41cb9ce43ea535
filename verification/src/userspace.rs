//! Entering ring 3: mapping the user code and stack pages and building the
//! synthetic interrupt frame the `iretq` in the boot path consumes. The copy
//! of the initial program image and the `iretq` itself are outside this
//! crate, driven by exactly these values.

use crate::memory::{
    map_user_page, BootInfoFrameAllocator, MapError, Mapper, PAGE_NO_EXECUTE, PAGE_PRESENT,
    PAGE_USER_ACCESSIBLE, PAGE_WRITABLE, USERSPACE_CODE_START, USERSPACE_STACK_START,
};
use vstd::prelude::*;

verus! {

/// Where userspace starts: the frames backing its first code and stack
/// pages, the stack pointer handed to ring 3, and the entry point.
#[derive(Clone, Copy, PartialEq, Eq, Structural, Debug)]
pub struct UserLayout {
    pub code_frame: u64,
    pub stack_frame: u64,
    pub user_rsp: u64,
    pub entry: u64,
}

/// Maps the first user pages: the stack page at the top of the user stack
/// region, writable and never executable, and the code page at the start of
/// the user code region, writable so the program image can be copied in.
/// The stack pointer lands half a page below the stack page's end. Fails
/// exactly when frames run out or one of the two pages is already taken;
/// on failure the allocator cursor has moved past the frames it consumed
/// and at most the stack mapping was installed.
pub fn userspace_setup(mapper: &mut Mapper, frame_allocator: &mut BootInfoFrameAllocator) -> (r:
    Result<UserLayout, MapError>)
    requires
        old(mapper).wf(),
        old(frame_allocator).next < usize::MAX - 1,
    ensures
        final(mapper).wf(),
        final(mapper).l4_frame == old(mapper).l4_frame,
        final(frame_allocator).memory_map == old(frame_allocator).memory_map,
        match r {
            Ok(layout) => {
                &&& !old(mapper).maps(USERSPACE_STACK_START)
                &&& !old(mapper).maps(USERSPACE_CODE_START)
                &&& old(frame_allocator).next + 1 < old(frame_allocator).frames().len()
                &&& layout.stack_frame == old(frame_allocator).frames()[old(
                    frame_allocator,
                ).next as int]
                &&& layout.code_frame == old(frame_allocator).frames()[old(
                    frame_allocator,
                ).next + 1]
                &&& final(frame_allocator).next == old(frame_allocator).next + 2
                &&& final(mapper).mappings@ == old(mapper).mappings@.push(
                    (
                        USERSPACE_STACK_START,
                        layout.stack_frame,
                        PAGE_PRESENT | PAGE_WRITABLE | PAGE_USER_ACCESSIBLE | PAGE_NO_EXECUTE,
                    ),
                ).push(
                    (
                        USERSPACE_CODE_START,
                        layout.code_frame,
                        PAGE_PRESENT | PAGE_WRITABLE | PAGE_USER_ACCESSIBLE,
                    ),
                )
                &&& final(mapper).maps(USERSPACE_STACK_START)
                &&& final(mapper).mapping_of(USERSPACE_STACK_START) == (
                    USERSPACE_STACK_START,
                    layout.stack_frame,
                    PAGE_PRESENT | PAGE_WRITABLE | PAGE_USER_ACCESSIBLE | PAGE_NO_EXECUTE,
                )
                &&& final(mapper).maps(USERSPACE_CODE_START)
                &&& final(mapper).mapping_of(USERSPACE_CODE_START) == (
                    USERSPACE_CODE_START,
                    layout.code_frame,
                    PAGE_PRESENT | PAGE_WRITABLE | PAGE_USER_ACCESSIBLE,
                )
                &&& layout.user_rsp == USERSPACE_STACK_START + 4096 - 2048
                &&& layout.entry == USERSPACE_CODE_START
            },
            Err(e) => {
                // Failure only for its two causes: a dry allocator at one of
                // the two frame grabs, or a page that was already mapped.
                &&& (e == MapError::FrameAllocationFailed ==> old(frame_allocator).next + 1
                    >= old(frame_allocator).frames().len())
                &&& (e == MapError::PageAlreadyMapped ==> old(mapper).maps(USERSPACE_STACK_START)
                    || old(mapper).maps(USERSPACE_CODE_START))
                // At most the stack mapping went in before the failure.
                &&& (final(mapper).mappings@ == old(mapper).mappings@
                    || final(mapper).mappings@ == old(mapper).mappings@.push(
                    (
                        USERSPACE_STACK_START,
                        old(frame_allocator).frames()[old(frame_allocator).next as int],
                        PAGE_PRESENT | PAGE_WRITABLE | PAGE_USER_ACCESSIBLE | PAGE_NO_EXECUTE,
                    ),
                ))
                &&& old(frame_allocator).next + 1 <= final(frame_allocator).next <= old(
                    frame_allocator,
                ).next + 2
            },
        },
{
    proof {
        assert(USERSPACE_STACK_START % 4096 == 0);
        assert(USERSPACE_CODE_START % 4096 == 0);
        assert(crate::memory::page_of(USERSPACE_STACK_START) == USERSPACE_STACK_START);
        assert(crate::memory::page_of(USERSPACE_CODE_START) == USERSPACE_CODE_START);
    }
    let stack_frame = match map_user_page(
        mapper,
        frame_allocator,
        USERSPACE_STACK_START,
        PAGE_PRESENT | PAGE_WRITABLE | PAGE_USER_ACCESSIBLE | PAGE_NO_EXECUTE,
    ) {
        Ok(f) => f,
        Err(e) => {
            return Err(e);
        },
    };
    let code_frame = match map_user_page(
        mapper,
        frame_allocator,
        USERSPACE_CODE_START,
        PAGE_PRESENT | PAGE_WRITABLE | PAGE_USER_ACCESSIBLE,
    ) {
        Ok(f) => f,
        Err(e) => {
            proof {
                // The second mapping can only collide with a mapping that
                // was there before: the first one covers a different page.
                if e == MapError::PageAlreadyMapped {
                    let mid = old(mapper).mappings@.push(
                        (
                            USERSPACE_STACK_START,
                            stack_frame,
                            PAGE_PRESENT | PAGE_WRITABLE | PAGE_USER_ACCESSIBLE
                                | PAGE_NO_EXECUTE,
                        ),
                    );
                    let w = choose|w: int| 0 <= w < mid.len() && mid[w].0 == USERSPACE_CODE_START;
                    assert(w < old(mapper).mappings@.len());
                    assert(old(mapper).maps(USERSPACE_CODE_START));
                }
            }
            return Err(e);
        },
    };
    proof {
        let pre = *old(mapper);
        let sp = USERSPACE_STACK_START;
        let w = pre.mappings@.len() as int;
        assert(mapper.mappings@[w].0 == sp);
        mapper.lemma_mapping_of(sp, w);
        assert(mapper.mappings@[w + 1].0 == USERSPACE_CODE_START);
        mapper.lemma_mapping_of(USERSPACE_CODE_START, w + 1);
        // The code page was free before the call too: the first mapping
        // covers a different page, so the pre-state already lacked it.
        assert(!pre.maps(USERSPACE_CODE_START)) by {
            if pre.maps(USERSPACE_CODE_START) {
                let w2 = choose|w2: int|
                    0 <= w2 < pre.mappings@.len() && pre.mappings@[w2].0
                        == USERSPACE_CODE_START;
                assert(pre.mappings@.push(
                    (
                        sp,
                        stack_frame,
                        PAGE_PRESENT | PAGE_WRITABLE | PAGE_USER_ACCESSIBLE | PAGE_NO_EXECUTE,
                    ),
                )[w2].0 == USERSPACE_CODE_START);
            }
        }
    }
    Ok(
        UserLayout {
            code_frame,
            stack_frame,
            user_rsp: USERSPACE_STACK_START + 4096 - 2048,
            entry: USERSPACE_CODE_START,
        },
    )
}

/// The synthetic interrupt frame `iretq` pops to enter ring 3: user SS, the
/// user stack pointer, rflags with the interrupt flag forced on, user CS,
/// and the entry point, in pop order.
pub fn build_iret_frame(user_ds: u16, user_cs: u16, user_rsp: u64, user_rip: u64, rflags: u64) -> (
    r: [u64; 5])
    ensures
        r@ == seq![
            user_ds as u64,
            user_rsp,
            rflags | 0x200,
            user_cs as u64,
            user_rip,
        ],
{
    let r: [u64; 5] = [user_ds as u64, user_rsp, rflags | 0x200, user_cs as u64, user_rip];
    proof {
        assert(r@ =~= seq![user_ds as u64, user_rsp, rflags | 0x200, user_cs as u64, user_rip]);
    }
    r
}

} // verus!
