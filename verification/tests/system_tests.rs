use oskernel::interrupts::InterruptIndex as BootInterruptIndex;
use oskernel::kernel::interrupts::{InterruptIndex, PIC_1_OFFSET, PIC_2_OFFSET};
use oskernel::kernel::memory::{phys_to_virt, BootInfoFrameAllocator, MemoryRegion};
use oskernel::kernel::time::{
    init, last_rtc_update, nanowait, on_rtc_interrupt, on_timer_interrupt, set_pit_frequency_divider,
    ticks, PortWrite, TimeState,
};
use x86_64::registers::rflags::RFlags;
use x86_64::registers::segmentation::SegmentSelector;
use x86_64::structures::idt::InterruptStackFrame;
use x86_64::VirtAddr;

fn frame() -> InterruptStackFrame {
    InterruptStackFrame::new(
        VirtAddr::new(0),
        SegmentSelector(0),
        RFlags::empty(),
        VirtAddr::new(0),
        SegmentSelector(0),
    )
}

#[test]
fn interrupt_vectors() {
    assert_eq!(PIC_1_OFFSET, 32);
    assert_eq!(PIC_2_OFFSET, 40);
    assert_eq!(InterruptIndex::Timer.as_u8(), 32);
    assert_eq!(InterruptIndex::Keyboard.as_u8(), 33);
    assert_eq!(InterruptIndex::FloppyDisk.as_u8(), 38);
    assert_eq!(InterruptIndex::RTC.as_usize(), 40);
    assert_eq!(InterruptIndex::PrimaryATAHardDisk.as_u8(), 46);
    assert_eq!(InterruptIndex::SecondaryATAHardDisk.as_usize(), 47);
}

#[test]
fn boot_interrupt_vectors() {
    assert_eq!(BootInterruptIndex::Timer.as_u8(), 32);
    assert_eq!(BootInterruptIndex::Keyboard.as_usize(), 33);
    assert_eq!(BootInterruptIndex::FloppyDisk.as_u8(), 6);
    assert_eq!(BootInterruptIndex::PrimaryATAHardDisk.as_u8(), 14);
    assert_eq!(BootInterruptIndex::SecondaryATAHardDisk.as_u8(), 15);
}

#[test]
fn timer_ticks_and_rtc_records_them() {
    let mut t = TimeState::new();
    assert_eq!(ticks(&t), 0);
    on_timer_interrupt(&mut t, frame());
    on_timer_interrupt(&mut t, frame());
    assert_eq!(ticks(&t), 2);
    assert_eq!(last_rtc_update(&t), 0);
    on_rtc_interrupt(&mut t, frame());
    assert_eq!(last_rtc_update(&t), 2);
    on_timer_interrupt(&mut t, frame());
    assert_eq!(last_rtc_update(&t), 2);
    assert_eq!(ticks(&t), 3);
}

#[test]
fn nanowait_without_calibration_ends_at_once() {
    let t = TimeState::new();
    let w = nanowait(&t, 1000, 50);
    assert_eq!(w.delta, 0);
    assert!(w.is_done(50));
}

#[test]
fn pit_is_programmed_for_one_millisecond() {
    let writes = init();
    assert_eq!(
        writes,
        vec![
            PortWrite { port: 0x43, value: 0x36 },
            PortWrite { port: 0x40, value: 0xA9 },
            PortWrite { port: 0x40, value: 0x04 },
        ]
    );
    assert_eq!(set_pit_frequency_divider(0x1234)[2], PortWrite { port: 0x40, value: 0x12 });
}

#[test]
fn phys_to_virt_adds_offset() {
    assert_eq!(phys_to_virt(0x1000, 0xffff_8000_0000_0000), 0xffff_8000_0000_1000);
}

#[test]
fn frame_allocator_hands_out_usable_frames_in_order() {
    let regions = vec![
        MemoryRegion { start_addr: 0, end_addr: 0x2000, usable: false },
        MemoryRegion { start_addr: 0x2000, end_addr: 0x4000, usable: true },
        MemoryRegion { start_addr: 0x10000, end_addr: 0x10800, usable: true },
    ];
    let mut a = BootInfoFrameAllocator::init(regions);
    assert_eq!(a.allocate_frame(), Some(0x2000));
    assert_eq!(a.allocate_frame(), Some(0x3000));
    assert_eq!(a.allocate_frame(), Some(0x10000));
    assert_eq!(a.allocate_frame(), None);
    assert_eq!(a.allocate_frame(), None);
}

#[test]
fn frame_allocator_aligns_unaligned_regions() {
    let regions = vec![MemoryRegion { start_addr: 0x1800, end_addr: 0x3000, usable: true }];
    let mut a = BootInfoFrameAllocator::init(regions);
    assert_eq!(a.allocate_frame(), Some(0x1000));
    assert_eq!(a.allocate_frame(), Some(0x2000));
    assert_eq!(a.allocate_frame(), None);
}

#[test]
fn frame_allocator_checks_addresses_before_building_them() {
    let high = 0x10_0000_0000_0000u64;
    let regions = vec![
        MemoryRegion { start_addr: 0x1000, end_addr: 0x2000, usable: true },
        MemoryRegion { start_addr: high - 0x1000, end_addr: high + 0x1000, usable: true },
    ];
    let mut a = BootInfoFrameAllocator::init(regions);
    assert!(a.can_allocate());
    assert_eq!(a.allocate_frame(), Some(0x1000));
    assert!(a.can_allocate());
    assert_eq!(a.allocate_frame(), Some(high - 0x1000));
    // the next address would be 2^52
    assert!(!a.can_allocate());
}

#[test]
fn frames_never_repeat_and_none_persists() {
    let regions = vec![
        MemoryRegion { start_addr: 0x3000, end_addr: 0x5000, usable: true },
        MemoryRegion { start_addr: 0x1000, end_addr: 0x3000, usable: true },
    ];
    let mut a = BootInfoFrameAllocator::init(regions);
    let mut seen = Vec::new();
    while let Some(f) = a.allocate_frame() {
        assert!(!seen.contains(&f));
        seen.push(f);
    }
    assert_eq!(seen, vec![0x3000, 0x4000, 0x1000, 0x2000]);
    for _ in 0..3 {
        assert_eq!(a.allocate_frame(), None);
    }
}

#[test]
fn ticks_count_timer_interrupts() {
    let mut t = TimeState::new();
    for _ in 0..10 {
        on_timer_interrupt(&mut t, frame());
    }
    assert_eq!(ticks(&t), 10);
    assert_eq!(t.clocks_per_nanosecond(), 0);
}
