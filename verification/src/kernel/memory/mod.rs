//! Physical memory: the physical-to-virtual offset mapping and the frame
//! allocator fed by the bootloader's memory map.
use vstd::prelude::*;

verus! {

/// Size of a page frame.
pub const FRAME_SIZE: u64 = 4096;

/// Physical addresses are at most 52 bits wide.
pub const PHYS_ADDR_LIMIT: u64 = 0x10_0000_0000_0000;

/// The virtual address of a physical address when all physical memory is
/// mapped at `physical_memory_offset`.
pub fn phys_to_virt(addr: u64, physical_memory_offset: u64) -> (virt: u64)
    requires
        addr + physical_memory_offset <= u64::MAX,
    ensures
        virt == addr + physical_memory_offset,
{
    addr + physical_memory_offset
}

/// A region of the bootloader's memory map: its physical address range and
/// whether it is free for use.
#[derive(Debug, Clone, Copy, PartialEq, Eq, Structural)]
pub struct MemoryRegion {
    pub start_addr: u64,
    pub end_addr: u64,
    pub usable: bool,
}

/// Number of addresses in `start..end` stepping by a frame.
pub open spec fn step_count(start: u64, end: u64) -> nat {
    if start < end {
        ((end - start + 4095) / 4096) as nat
    } else {
        0
    }
}

/// The addresses that `(start..end).step_by(4096)` yields for a usable
/// region; none for any other region.
pub open spec fn region_addresses(r: MemoryRegion) -> Seq<u64> {
    if r.usable {
        Seq::new(step_count(r.start_addr, r.end_addr), |k: int| (r.start_addr + 4096 * k) as u64)
    } else {
        Seq::empty()
    }
}

/// The addresses of the usable regions, region after region.
pub open spec fn usable_addresses(regions: Seq<MemoryRegion>) -> Seq<u64>
    decreases regions.len(),
{
    if regions.len() == 0 {
        Seq::empty()
    } else {
        usable_addresses(regions.drop_last()) + region_addresses(regions.last())
    }
}

/// The start of the 4 KiB frame containing an address.
pub open spec fn frame_containing(addr: u64) -> u64 {
    (addr - addr % 4096) as u64
}

/// The usable frames, in the order the allocator hands them out.
pub open spec fn usable_frames(regions: Seq<MemoryRegion>) -> Seq<u64> {
    usable_addresses(regions).map_values(|a: u64| frame_containing(a))
}

/// The address at `k` of a usable region lies inside it.
pub proof fn lemma_region_address_bound(r: MemoryRegion, k: int)
    requires
        r.usable,
        0 <= k < step_count(r.start_addr, r.end_addr),
    ensures
        r.start_addr + 4096 * k < r.end_addr,
{
}

/// Listing the addresses of two runs of regions one after the other lists
/// the addresses of both.
pub proof fn lemma_usable_addresses_concat(a: Seq<MemoryRegion>, b: Seq<MemoryRegion>)
    ensures
        usable_addresses(a + b) == usable_addresses(a) + usable_addresses(b),
    decreases b.len(),
{
    if b.len() == 0 {
        assert(a + b =~= a);
        assert(usable_addresses(a) + usable_addresses(b) =~= usable_addresses(a));
    } else {
        assert((a + b).drop_last() =~= a + b.drop_last());
        assert((a + b).last() == b.last());
        lemma_usable_addresses_concat(a, b.drop_last());
        assert(usable_addresses(a + b) =~= usable_addresses(a) + usable_addresses(b));
    }
}

/// What the allocator hands out when asked for the `k`-th time (counting
/// from 0): the `k`-th usable frame, or `None` once they are used up.
pub open spec fn allocation(regions: Seq<MemoryRegion>, k: int) -> Option<u64> {
    if 0 <= k < usable_frames(regions).len() {
        Some(usable_frames(regions)[k])
    } else {
        None
    }
}

/// Hands out the usable frames of the bootloader's memory map one after
/// the other.
pub struct BootInfoFrameAllocator {
    memory_map: Vec<MemoryRegion>,
    next: usize,
}

/// The abstract state of the allocator: the memory map and how many frames
/// have been asked for.
pub struct FrameAllocatorView {
    pub memory_map: Seq<MemoryRegion>,
    pub next: int,
}

impl View for BootInfoFrameAllocator {
    type V = FrameAllocatorView;

    closed spec fn view(&self) -> FrameAllocatorView {
        FrameAllocatorView { memory_map: self.memory_map@, next: self.next as int }
    }
}

/// Producing the frame at `next` makes the address iterator build every
/// physical address up to it, which must be below 2^52.
pub open spec fn addresses_valid_up_to(regions: Seq<MemoryRegion>, next: int) -> bool {
    forall|k: int|
        0 <= k <= next && k < usable_addresses(regions).len() ==> #[trigger] usable_addresses(
            regions,
        )[k] < PHYS_ADDR_LIMIT
}

impl BootInfoFrameAllocator {
    /// An allocator over the given memory map that has handed out nothing.
    pub fn init(memory_map: Vec<MemoryRegion>) -> (a: BootInfoFrameAllocator)
        ensures
            a@ == (FrameAllocatorView { memory_map: memory_map@, next: 0 }),
    {
        BootInfoFrameAllocator { memory_map, next: 0 }
    }

    /// The next usable frame (its start address), or `None` once they are
    /// used up; either way the count of requests goes up by one.
    pub fn allocate_frame(&mut self) -> (frame: Option<u64>)
        requires
            old(self)@.next < usize::MAX,
            addresses_valid_up_to(old(self)@.memory_map, old(self)@.next),
        ensures
            final(self)@ == (FrameAllocatorView { next: old(self)@.next + 1, ..old(self)@ }),
            frame == allocation(old(self)@.memory_map, old(self)@.next),
    {
        let frame = self.usable_frame(self.next);
        self.next = self.next + 1;
        frame
    }

    /// Whether the next request can be made: the count of requests can
    /// still grow and every address built up to the next frame is below
    /// 2^52.
    pub fn can_allocate(&self) -> (r: bool)
        ensures
            r == (self@.next < usize::MAX && addresses_valid_up_to(self@.memory_map, self@.next)),
    {
        if self.next == usize::MAX {
            return false;
        }
        let ghost regions = self.memory_map@;
        let n = self.next;
        let mut i: usize = 0;
        let mut remaining: u64 = n as u64;
        while i < self.memory_map.len()
            invariant
                regions == self.memory_map@,
                n == self.next,
                n < usize::MAX,
                i <= regions.len(),
                usable_addresses(regions.take(i as int)).len() + remaining == n,
                forall|k: int|
                    0 <= k < usable_addresses(regions.take(i as int)).len() ==> #[trigger] usable_addresses(
                        regions.take(i as int),
                    )[k] < PHYS_ADDR_LIMIT,
            decreases regions.len() - i,
        {
            let region = self.memory_map[i];
            let ghost pre = regions.take(i as int);
            let ghost upto = regions.take(i as int + 1);
            proof {
                assert(upto.drop_last() =~= pre);
                assert(upto.last() == region);
                let after = regions.skip(i as int + 1);
                assert(regions =~= upto + after);
                lemma_usable_addresses_concat(upto, after);
                assert(usable_addresses(upto) == usable_addresses(pre) + region_addresses(region));
            }
            if region.usable && region.start_addr < region.end_addr {
                let count: u64 = (region.end_addr - region.start_addr - 1) / 4096 + 1;
                assert(count == step_count(region.start_addr, region.end_addr));
                let last: u64 = if remaining < count {
                    remaining
                } else {
                    count - 1
                };
                proof {
                    lemma_region_address_bound(region, last as int);
                }
                let addr = region.start_addr + 4096 * last;
                if addr >= PHYS_ADDR_LIMIT {
                    proof {
                        let k = usable_addresses(pre).len() + last;
                        assert(usable_addresses(regions)[k] == addr);
                    }
                    return false;
                }
                if remaining < count {
                    proof {
                        assert forall|k: int|
                            0 <= k <= n && k < usable_addresses(regions).len() implies #[trigger] usable_addresses(
                            regions,
                        )[k] < PHYS_ADDR_LIMIT by {
                            if k < usable_addresses(pre).len() {
                                assert(usable_addresses(regions)[k] == usable_addresses(upto)[k]);
                                assert(usable_addresses(upto)[k] == usable_addresses(pre)[k]);
                                assert(usable_addresses(pre)[k] < PHYS_ADDR_LIMIT);
                            } else {
                                let j = k - usable_addresses(pre).len();
                                assert(j <= remaining);
                                assert(usable_addresses(regions)[k] == usable_addresses(upto)[k]);
                                assert(usable_addresses(regions)[k] == region_addresses(region)[j]);
                                assert(region_addresses(region)[j] == region.start_addr + 4096 * j);
                                assert(region.start_addr + 4096 * j <= addr);
                            }
                        }
                    }
                    return true;
                }
                proof {
                    assert forall|k: int|
                        0 <= k < usable_addresses(upto).len() implies #[trigger] usable_addresses(
                        upto,
                    )[k] < PHYS_ADDR_LIMIT by {
                        if k >= usable_addresses(pre).len() {
                            let j = k - usable_addresses(pre).len();
                            assert(usable_addresses(upto)[k] == region_addresses(region)[j]);
                        }
                    }
                }
                remaining = remaining - count;
            } else {
                assert(usable_addresses(upto) =~= usable_addresses(pre));
            }
            i = i + 1;
        }
        proof {
            assert(regions.take(regions.len() as int) =~= regions);
        }
        true
    }

    /// The `n`-th usable frame, if there is one.
    fn usable_frame(&self, n: usize) -> (frame: Option<u64>)
        ensures
            frame == if n < usable_frames(self@.memory_map).len() {
                Some(usable_frames(self@.memory_map)[n as int])
            } else {
                None
            },
    {
        let ghost regions = self.memory_map@;
        let mut i: usize = 0;
        let mut remaining: u64 = n as u64;
        while i < self.memory_map.len()
            invariant
                regions == self.memory_map@,
                i <= regions.len(),
                usable_addresses(regions.take(i as int)).len() + remaining == n,
            decreases regions.len() - i,
        {
            let region = self.memory_map[i];
            proof {
                assert(regions.take(i as int + 1).drop_last() =~= regions.take(i as int));
                assert(regions.take(i as int + 1).last() == region);
            }
            if region.usable && region.start_addr < region.end_addr {
                let count: u64 = (region.end_addr - region.start_addr - 1) / 4096 + 1;
                assert(count == step_count(region.start_addr, region.end_addr));
                if remaining < count {
                    let addr = region.start_addr + 4096 * remaining;
                    proof {
                        lemma_region_address_bound(region, remaining as int);
                        let before = regions.take(i as int);
                        let after = regions.skip(i as int + 1);
                        assert(regions =~= regions.take(i as int + 1) + after);
                        lemma_usable_addresses_concat(regions.take(i as int + 1), after);
                        let all = usable_addresses(regions);
                        assert(all[n as int] == region_addresses(region)[remaining as int]);
                    }
                    return Some(addr - addr % 4096);
                }
                remaining = remaining - count;
            }
            i = i + 1;
        }
        proof {
            assert(regions.take(regions.len() as int) =~= regions);
        }
        None
    }
}

/// Every address listed lies inside a usable region of the memory map.
pub proof fn lemma_usable_address_in_region(regions: Seq<MemoryRegion>, k: int)
    requires
        0 <= k < usable_addresses(regions).len(),
    ensures
        exists|i: int|
            0 <= i < regions.len() && #[trigger] regions[i].usable && regions[i].start_addr
                <= usable_addresses(regions)[k] < regions[i].end_addr,
    decreases regions.len(),
{
    let pre = regions.drop_last();
    let last = regions.last();
    let before = usable_addresses(pre);
    if k < before.len() {
        lemma_usable_address_in_region(pre, k);
        let i = choose|i: int|
            0 <= i < pre.len() && #[trigger] pre[i].usable && pre[i].start_addr <= before[k]
                < pre[i].end_addr;
        assert(regions[i] == pre[i]);
    } else {
        let j = k - before.len();
        lemma_region_address_bound(last, j);
        assert(regions[regions.len() - 1] == last);
        assert(regions[regions.len() - 1].usable);
    }
}

/// The allocator hands out only frames that overlap a usable region of the
/// memory map: each frame is 4 KiB aligned and contains an address of a
/// usable region.
pub proof fn lemma_frame_is_usable(regions: Seq<MemoryRegion>, k: int)
    requires
        0 <= k < usable_frames(regions).len(),
    ensures
        usable_frames(regions)[k] % 4096 == 0,
        exists|i: int|
            0 <= i < regions.len() && #[trigger] regions[i].usable && usable_frames(regions)[k]
                <= usable_addresses(regions)[k] < usable_frames(regions)[k] + 4096
                && regions[i].start_addr <= usable_addresses(regions)[k] < regions[i].end_addr,
{
    lemma_usable_address_in_region(regions, k);
    let a = usable_addresses(regions)[k];
    assert(usable_frames(regions)[k] == frame_containing(a));
    assert((a - a % 4096) % 4096 == 0) by (nonlinear_arith);
}

/// Usable regions start on a frame boundary and no two of them overlap.
pub open spec fn usable_regions_disjoint_aligned(regions: Seq<MemoryRegion>) -> bool {
    &&& forall|i: int|
        0 <= i < regions.len() && #[trigger] regions[i].usable ==> regions[i].start_addr % 4096
            == 0
    &&& forall|i: int, j: int|
        0 <= i < regions.len() && 0 <= j < regions.len() && i != j && #[trigger] regions[i].usable
            && #[trigger] regions[j].usable ==> regions[i].end_addr <= regions[j].start_addr
            || regions[j].end_addr <= regions[i].start_addr
}

/// Every address listed is `start + 4096 * j` for a usable region and a
/// step `j` inside it.
pub proof fn lemma_usable_address_form(regions: Seq<MemoryRegion>, k: int)
    requires
        0 <= k < usable_addresses(regions).len(),
    ensures
        exists|i: int, j: int|
            0 <= i < regions.len() && #[trigger] regions[i].usable && 0 <= j < step_count(
                regions[i].start_addr,
                regions[i].end_addr,
            ) && usable_addresses(regions)[k] == #[trigger] (regions[i].start_addr + 4096 * j),
    decreases regions.len(),
{
    let pre = regions.drop_last();
    let before = usable_addresses(pre);
    if k < before.len() {
        lemma_usable_address_form(pre, k);
        let (i, j) = choose|i: int, j: int|
            0 <= i < pre.len() && #[trigger] pre[i].usable && 0 <= j < step_count(
                pre[i].start_addr,
                pre[i].end_addr,
            ) && before[k] == #[trigger] (pre[i].start_addr + 4096 * j);
        assert(regions[i] == pre[i]);
        assert(usable_addresses(regions)[k] == regions[i].start_addr + 4096 * j);
    } else {
        let j = k - before.len();
        let i = regions.len() - 1;
        assert(regions[i] == regions.last());
        assert(regions[i].usable);
        lemma_region_address_bound(regions[i], j);
        assert(usable_addresses(regions)[k] == regions[i].start_addr + 4096 * j);
    }
}

/// With usable regions aligned, each address is the start of its frame.
proof fn lemma_frames_are_addresses(regions: Seq<MemoryRegion>)
    requires
        usable_regions_disjoint_aligned(regions),
    ensures
        usable_frames(regions) == usable_addresses(regions),
{
    let addrs = usable_addresses(regions);
    assert forall|k: int| 0 <= k < addrs.len() implies frame_containing(#[trigger] addrs[k])
        == addrs[k] by {
        lemma_usable_address_form(regions, k);
        let (i, j) = choose|i: int, j: int|
            0 <= i < regions.len() && #[trigger] regions[i].usable && 0 <= j < step_count(
                regions[i].start_addr,
                regions[i].end_addr,
            ) && addrs[k] == #[trigger] (regions[i].start_addr + 4096 * j);
        let st = regions[i].start_addr as int;
        assert(st % 4096 == 0);
        assert((st + 4096 * j) % 4096 == 0) by (nonlinear_arith)
            requires
                st % 4096 == 0,
        ;
    }
    assert(usable_frames(regions) =~= addrs);
}

/// With usable regions aligned and disjoint, no frame is listed twice.
pub proof fn lemma_usable_frames_distinct(regions: Seq<MemoryRegion>)
    requires
        usable_regions_disjoint_aligned(regions),
    ensures
        usable_frames(regions).no_duplicates(),
    decreases regions.len(),
{
    lemma_frames_are_addresses(regions);
    if regions.len() > 0 {
        let pre = regions.drop_last();
        let last = regions.last();
        assert(usable_regions_disjoint_aligned(pre)) by {
            assert forall|i: int| 0 <= i < pre.len() implies pre[i] == regions[i] by {}
        }
        lemma_usable_frames_distinct(pre);
        lemma_frames_are_addresses(pre);
        let a = usable_addresses(pre);
        let r = region_addresses(last);
        let all = usable_addresses(regions);
        assert(all == a + r);
        assert forall|x: int, y: int| 0 <= x < y < all.len() implies all[x] != all[y] by {
            if y < a.len() {
                assert(a[x] != a[y]);
            } else if x >= a.len() {
                assert(r[x - a.len()] == last.start_addr + 4096 * (x - a.len()));
                assert(r[y - a.len()] == last.start_addr + 4096 * (y - a.len()));
            } else {
                lemma_usable_address_in_region(pre, x);
                let i = choose|i: int|
                    0 <= i < pre.len() && #[trigger] pre[i].usable && pre[i].start_addr <= a[x]
                        < pre[i].end_addr;
                let n = regions.len() - 1;
                assert(regions[i] == pre[i]);
                assert(regions[n] == last);
                assert(last.usable);
                lemma_region_address_bound(last, y - a.len());
                assert(regions[i].usable && regions[n].usable && i != n);
            }
        }
    }
}

/// Asked again and again, the allocator never hands out a frame twice when
/// the usable regions are aligned and disjoint, and once it has no frame
/// left it never has one again. (The `k`-th request, counting from 0, gets
/// `allocation(map, k)`, since every request moves the count up by one.)
pub proof fn lemma_allocations(regions: Seq<MemoryRegion>, k1: int, k2: int)
    requires
        0 <= k1 < k2,
    ensures
        allocation(regions, k1) is None ==> allocation(regions, k2) is None,
        usable_regions_disjoint_aligned(regions) && allocation(regions, k1) is Some && allocation(
            regions,
            k2,
        ) is Some ==> allocation(regions, k1) != allocation(regions, k2),
{
    if usable_regions_disjoint_aligned(regions) {
        lemma_usable_frames_distinct(regions);
    }
}

} // verus!
