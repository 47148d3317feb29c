//! Interrupt numbers of the two chained programmable interrupt controllers.
use vstd::prelude::*;

verus! {

/// First vector of the primary PIC.
pub const PIC_1_OFFSET: u8 = 32;

/// First vector of the secondary PIC.
pub const PIC_2_OFFSET: u8 = PIC_1_OFFSET + 8;

/// The hardware interrupts the kernel handles, by IRQ line.
#[derive(Debug, Clone, Copy, PartialEq, Eq, Structural)]
pub enum InterruptIndex {
    Timer,
    Keyboard,
    FloppyDisk,
    RTC,
    PrimaryATAHardDisk,
    SecondaryATAHardDisk,
}

impl InterruptIndex {
    /// The vector number: the primary PIC's offset plus the IRQ line.
    pub open spec fn spec_as_u8(self) -> u8 {
        match self {
            InterruptIndex::Timer => 32,
            InterruptIndex::Keyboard => 33,
            InterruptIndex::FloppyDisk => 38,
            InterruptIndex::RTC => 40,
            InterruptIndex::PrimaryATAHardDisk => 46,
            InterruptIndex::SecondaryATAHardDisk => 47,
        }
    }

    /// The vector number.
    #[verifier::when_used_as_spec(spec_as_u8)]
    pub fn as_u8(self) -> (v: u8)
        ensures
            v == self.spec_as_u8(),
    {
        match self {
            InterruptIndex::Timer => PIC_1_OFFSET,
            InterruptIndex::Keyboard => PIC_1_OFFSET + 1,
            InterruptIndex::FloppyDisk => PIC_1_OFFSET + 6,
            InterruptIndex::RTC => PIC_1_OFFSET + 8,
            InterruptIndex::PrimaryATAHardDisk => PIC_1_OFFSET + 14,
            InterruptIndex::SecondaryATAHardDisk => PIC_1_OFFSET + 15,
        }
    }

    /// The vector number as an index into the descriptor table.
    pub fn as_usize(self) -> (v: usize)
        ensures
            v == self.spec_as_u8(),
    {
        usize::from(self.as_u8())
    }
}

/// Different interrupts have different vectors; the timer is the first
/// vector of the primary controller and the real-time clock the first of the
/// secondary one.
pub proof fn lemma_vectors_distinct(a: InterruptIndex, b: InterruptIndex)
    ensures
        a.spec_as_u8() == b.spec_as_u8() ==> a == b,
        InterruptIndex::Timer.spec_as_u8() == PIC_1_OFFSET,
        InterruptIndex::RTC.spec_as_u8() == PIC_2_OFFSET,
        PIC_1_OFFSET <= a.spec_as_u8() < PIC_2_OFFSET + 8,
{
}

} // verus!
