//! The kernel bump allocator: a single monotonic cursor over a fixed
//! pre-mapped heap region. Freeing is a no-op; exhaustion returns nothing.

use vstd::prelude::*;

verus! {

/// A monotonic allocator over `[heap_start, heap_end)`.
pub struct HeapAllocator {
    pub heap_start: usize,
    pub heap_end: usize,
    /// The next free address.
    pub current: usize,
}

impl HeapAllocator {
    /// The cursor stays inside the region.
    pub open spec fn wf(self) -> bool {
        self.heap_start <= self.current <= self.heap_end
    }

    /// An allocator over the `heap_size` bytes from `heap_start`.
    pub fn new(heap_start: usize, heap_size: u64) -> (r: HeapAllocator)
        requires
            heap_start + heap_size <= usize::MAX,
        ensures
            r.wf(),
            r.heap_start == heap_start,
            r.heap_end == heap_start + heap_size,
            r.current == heap_start,
    {
        HeapAllocator { heap_start, heap_end: heap_start + heap_size as usize, current: heap_start }
    }

    /// The alignment padding `allocate` inserts before a block: what it
    /// takes to round the cursor up to the next multiple of `align`.
    pub open spec fn align_padding(cursor: int, align: int) -> int {
        if cursor % align == 0 {
            0
        } else {
            align - cursor % align
        }
    }

    /// Carves `size` bytes aligned to `align` off the region: the cursor is
    /// rounded up to the alignment and advanced past the block. Returns the
    /// block's address; `None` (the null of the allocator ABI) comes exactly
    /// when the aligned block would run past the end of the region.
    pub fn allocate(&mut self, size: usize, align: usize) -> (r: Option<usize>)
        requires
            old(self).wf(),
            align >= 1,
        ensures
            final(self).wf(),
            final(self).heap_start == old(self).heap_start,
            final(self).heap_end == old(self).heap_end,
            match r {
                Some(p) => {
                    &&& p % align == 0
                    &&& p == old(self).current + Self::align_padding(
                        old(self).current as int,
                        align as int,
                    )
                    &&& p + size <= old(self).heap_end
                    &&& final(self).current == p + size
                },
                None => {
                    &&& final(self).current == old(self).current
                    // Failure only on exhaustion: the aligned block does not
                    // fit the region.
                    &&& old(self).current + Self::align_padding(
                        old(self).current as int,
                        align as int,
                    ) + size > old(self).heap_end
                },
            },
    {
        let rem = self.current % align;
        let pad: usize = if rem == 0 {
            0
        } else {
            align - rem
        };
        if pad > usize::MAX - self.current {
            return None;
        }
        let aligned = self.current + pad;
        proof {
            if rem != 0 {
                vstd::arithmetic::div_mod::lemma_fundamental_div_mod(
                    self.current as int,
                    align as int,
                );
                let q = self.current as int / align as int;
                vstd::arithmetic::mul::lemma_mul_is_distributive_add(align as int, q, 1);
                assert(aligned == align * (q + 1));
                vstd::arithmetic::div_mod::lemma_mod_multiples_vanish(q + 1, 0, align as int);
                assert(aligned % align == 0);
            }
        }
        if aligned > self.heap_end || size > self.heap_end - aligned {
            return None;
        }
        self.current = aligned + size;
        Some(aligned)
    }

    /// Freeing returns nothing to the region.
    pub fn dealloc(&self, _ptr: usize) {
    }
}

} // verus!
