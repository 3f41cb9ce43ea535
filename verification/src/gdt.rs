//! Segment-table layout: the descriptor order the fast-syscall path
//! requires, the selectors it produces, and the stack tops the TSS holds.
//! Loading the tables and segment registers is privileged work done outside
//! this crate with exactly these values.

use vstd::prelude::*;

verus! {

/// Descriptor slot of the ring-0 code segment (slot 0 is the null entry).
pub const GDT_KERNEL_CODE: u16 = 1;

/// Descriptor slot of the ring-0 data segment.
pub const GDT_KERNEL_DATA: u16 = 2;

/// Descriptor slot of the unused 32-bit ring-3 code segment; it exists so
/// the 64-bit user code selector lands 16 bytes above it, as SYSRET's STAR
/// layout demands.
pub const GDT_USER_CODE32: u16 = 3;

/// Descriptor slot of the ring-3 data segment.
pub const GDT_USER_DATA: u16 = 4;

/// Descriptor slot of the 64-bit ring-3 code segment.
pub const GDT_USER_CODE: u16 = 5;

/// Descriptor slot of the TSS descriptor.
pub const GDT_TSS: u16 = 6;

/// IST slot carrying the dedicated double-fault stack.
pub const DOUBLE_FAULT_IST_INDEX: u16 = 0;

/// Bytes reserved for the double-fault stack.
pub const DOUBLE_FAULT_STACK_SIZE: u64 = 4096 * 5;

/// Bytes reserved for the kernel stack interrupts from ring 3 land on.
pub const KERNEL_STACK_SIZE: u64 = 4096 * 5;

/// The six selectors the kernel programs into segment registers and MSRs.
#[derive(Clone, Copy, PartialEq, Eq, Structural, Debug)]
pub struct Selectors {
    pub kernel_code_selector: u16,
    pub kernel_data_selector: u16,
    pub user_code32_selector: u16,
    pub user_data_selector: u16,
    pub user_code_selector: u16,
    pub tss_selector: u16,
}

/// A selector value: the descriptor slot shifted past the table-indicator
/// bits, with the requested privilege level in the low bits.
pub open spec fn selector_value(slot: u16, rpl: u16) -> u16 {
    (slot * 8 + rpl) as u16
}

/// The selectors the descriptor order above yields, with ring 0 for the
/// kernel and the TSS and ring 3 for user segments. The layout satisfies
/// what STAR needs: the kernel data selector directly follows the kernel
/// code selector, and the 64-bit user code selector sits exactly 16 bytes
/// above the 32-bit one.
pub fn init_gdt() -> (r: Selectors)
    ensures
        r.kernel_code_selector == selector_value(GDT_KERNEL_CODE as u16, 0),
        r.kernel_data_selector == selector_value(GDT_KERNEL_DATA as u16, 0),
        r.user_code32_selector == selector_value(GDT_USER_CODE32 as u16, 3),
        r.user_data_selector == selector_value(GDT_USER_DATA as u16, 3),
        r.user_code_selector == selector_value(GDT_USER_CODE as u16, 3),
        r.tss_selector == selector_value(GDT_TSS as u16, 0),
        // The STAR MSR layout constraints.
        r.user_code32_selector == r.user_code_selector - 16,
        r.kernel_data_selector == r.kernel_code_selector + 8,
        r.user_code_selector & 0xFFFC >= 16,
{
    let r = Selectors {
        kernel_code_selector: GDT_KERNEL_CODE * 8,
        kernel_data_selector: GDT_KERNEL_DATA * 8,
        user_code32_selector: GDT_USER_CODE32 * 8 + 3,
        user_data_selector: GDT_USER_DATA * 8 + 3,
        user_code_selector: GDT_USER_CODE * 8 + 3,
        tss_selector: GDT_TSS * 8,
    };
    proof {
        assert(r.user_code_selector == 43);
        assert(43u16 & 0xFFFC == 40) by (bit_vector);
    }
    r
}

/// The top of a downward-growing stack that starts at `stack_start` and
/// holds `size` bytes: the address loaded into a TSS stack slot.
pub fn init_tss(stack_start: u64, size: u64) -> (r: u64)
    requires
        stack_start + size <= u64::MAX,
    ensures
        r == stack_start + size,
{
    stack_start + size
}

} // verus!
