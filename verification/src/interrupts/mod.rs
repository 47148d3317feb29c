//! Interrupt numbers as the boot binary assigns them.
use vstd::prelude::*;

verus! {

/// First vector of the primary PIC.
pub const PIC_1_OFFSET: u8 = 32;

/// First vector of the secondary PIC.
pub const PIC_2_OFFSET: u8 = PIC_1_OFFSET + 8;

/// The interrupts the boot binary knows: the timer and keyboard at the
/// primary PIC's first vectors, the disks by their raw IRQ numbers.
#[derive(Debug, Clone, Copy, PartialEq, Eq, Structural)]
pub enum InterruptIndex {
    Timer,
    Keyboard,
    FloppyDisk,
    PrimaryATAHardDisk,
    SecondaryATAHardDisk,
}

impl InterruptIndex {
    pub open spec fn spec_as_u8(self) -> u8 {
        match self {
            InterruptIndex::Timer => 32,
            InterruptIndex::Keyboard => 33,
            InterruptIndex::FloppyDisk => 6,
            InterruptIndex::PrimaryATAHardDisk => 14,
            InterruptIndex::SecondaryATAHardDisk => 15,
        }
    }

    /// The vector number.
    #[verifier::when_used_as_spec(spec_as_u8)]
    pub fn as_u8(self) -> (v: u8)
        ensures
            v == self.spec_as_u8(),
    {
        match self {
            InterruptIndex::Timer => PIC_1_OFFSET,
            InterruptIndex::Keyboard => PIC_1_OFFSET + 1,
            InterruptIndex::FloppyDisk => 6,
            InterruptIndex::PrimaryATAHardDisk => 14,
            InterruptIndex::SecondaryATAHardDisk => 15,
        }
    }

    /// The vector number as an index into the descriptor table.
    pub fn as_usize(self) -> (v: usize)
        ensures
            v == self.spec_as_u8(),
    {
        usize::from(self.as_u8())
    }
}

/// Different interrupts have different vectors.
pub proof fn lemma_vectors_distinct(a: InterruptIndex, b: InterruptIndex)
    ensures
        a.spec_as_u8() == b.spec_as_u8() ==> a == b,
        InterruptIndex::Timer.spec_as_u8() == PIC_1_OFFSET,
{
}

} // verus!
