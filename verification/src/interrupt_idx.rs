//! Vector numbers of the remapped PIC interrupt lines.

use vstd::prelude::*;

verus! {

/// First vector of the primary PIC after remapping, clear of the CPU
/// exception range.
pub const PIC_1_OFFSET: u8 = 32;

/// First vector of the secondary PIC after remapping.
pub const PIC_2_OFFSET: u8 = 40;

/// The IRQ lines of the primary PIC, in wire order from its base vector.
#[derive(Clone, Copy, PartialEq, Eq, Structural, Debug)]
pub enum InterruptIndex {
    Timer,
    Keyboard,
    Cascade,
    Com2,
    Com1,
    Lpt2,
    Floppy,
    Lpt1,
}

impl InterruptIndex {
    /// The wire number of this line on the primary PIC.
    pub open spec fn line(self) -> u8 {
        match self {
            InterruptIndex::Timer => 0,
            InterruptIndex::Keyboard => 1,
            InterruptIndex::Cascade => 2,
            InterruptIndex::Com2 => 3,
            InterruptIndex::Com1 => 4,
            InterruptIndex::Lpt2 => 5,
            InterruptIndex::Floppy => 6,
            InterruptIndex::Lpt1 => 7,
        }
    }

    /// The interrupt vector this line raises after remapping.
    pub fn as_u8(self) -> (r: u8)
        ensures
            r == PIC_1_OFFSET + self.line(),
    {
        match self {
            InterruptIndex::Timer => PIC_1_OFFSET,
            InterruptIndex::Keyboard => PIC_1_OFFSET + 1,
            InterruptIndex::Cascade => PIC_1_OFFSET + 2,
            InterruptIndex::Com2 => PIC_1_OFFSET + 3,
            InterruptIndex::Com1 => PIC_1_OFFSET + 4,
            InterruptIndex::Lpt2 => PIC_1_OFFSET + 5,
            InterruptIndex::Floppy => PIC_1_OFFSET + 6,
            InterruptIndex::Lpt1 => PIC_1_OFFSET + 7,
        }
    }
}

} // verus!
