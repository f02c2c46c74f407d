//! Interrupt vector numbering for the remapped 8259 PICs.

use vstd::prelude::*;

verus! {

/// First vector of the primary PIC (above the 32 CPU exception vectors).
pub const PIC_1_OFFSET: u8 = 32;

/// First vector of the secondary PIC.
pub const PIC_2_OFFSET: u8 = 40;

/// Hardware interrupt lines handled by the kernel.
#[derive(Debug, Clone, Copy, PartialEq, Eq)]
pub enum InterruptIndex {
    Timer,
    Keyboard,
}

impl InterruptIndex {
    /// The vector number of the line.
    pub open spec fn spec_vector(self) -> u8 {
        match self {
            InterruptIndex::Timer => PIC_1_OFFSET,
            InterruptIndex::Keyboard => (PIC_1_OFFSET + 1) as u8,
        }
    }

    pub fn as_u8(self) -> (r: u8)
        ensures
            r == self.spec_vector(),
    {
        match self {
            InterruptIndex::Timer => PIC_1_OFFSET,
            InterruptIndex::Keyboard => PIC_1_OFFSET + 1,
        }
    }

    pub fn as_usize(self) -> (r: usize)
        ensures
            r == self.spec_vector(),
    {
        self.as_u8() as usize
    }
}

} // verus!
