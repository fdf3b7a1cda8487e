//! The physical memory map handed over by the bootloader: counting usable
//! bytes, handing out 4 KiB frames, and where the kernel heap lives.

use vstd::prelude::*;

verus! {

/// Virtual address where the kernel heap starts.
pub const HEAP_START: u64 = 0x_4444_4444_0000;

/// Size of the kernel heap: 100 KiB.
pub const HEAP_SIZE: u64 = 100 * 1024;

/// Size of a page and of a physical frame.
pub const FRAME_SIZE: u64 = 4096;

/// Lowest address a frame may start at: the first frame is never handed out.
pub const FIRST_FRAME: u64 = 0x1000;

/// Physical addresses must be below 2^52.
pub const PHYS_ADDR_LIMIT: u64 = 0x10_0000_0000_0000;

/// The type of a memory region.
#[derive(Clone, Copy, Debug)]
pub enum MemoryRegionKind {
    /// Free memory the kernel may use.
    Usable,
    /// Memory in use by the bootloader's mappings.
    Bootloader,
    /// Another type reported by UEFI firmware, with its tag.
    UnknownUefi(u32),
    /// Another type reported by BIOS firmware, with its E820 type.
    UnknownBios(u32),
}

/// A range of physical memory, `start` inclusive, `end` exclusive.
#[derive(Clone, Copy, Debug)]
pub struct MemoryRegion {
    pub start: u64,
    pub end: u64,
    pub kind: MemoryRegionKind,
}

pub open spec fn is_usable(region: MemoryRegion) -> bool {
    region.kind is Usable
}

/// Total size of the usable regions.
pub open spec fn usable_bytes(regions: Seq<MemoryRegion>) -> int
    decreases regions.len(),
{
    if regions.len() == 0 {
        0
    } else {
        let last = regions.last();
        usable_bytes(regions.drop_last()) + if is_usable(last) {
            last.end - last.start
        } else {
            0
        }
    }
}

/// Sum of the sizes of the usable regions.
pub fn usable_memory_bytes(memory_regions: &[MemoryRegion]) -> (total: u64)
    requires
        forall|i: int| 0 <= i < memory_regions@.len() && is_usable(#[trigger] memory_regions@[i])
            ==> memory_regions@[i].start <= memory_regions@[i].end,
        usable_bytes(memory_regions@) <= u64::MAX,
    ensures
        total == usable_bytes(memory_regions@),
{
    let mut total: u64 = 0;
    let mut i: usize = 0;
    while i < memory_regions.len()
        invariant
            i <= memory_regions@.len(),
            forall|j: int| 0 <= j < memory_regions@.len() && is_usable(#[trigger] memory_regions@[j])
                ==> memory_regions@[j].start <= memory_regions@[j].end,
            usable_bytes(memory_regions@) <= u64::MAX,
            total == usable_bytes(memory_regions@.take(i as int)),
        decreases memory_regions@.len() - i,
    {
        let region = memory_regions[i];
        proof {
            assert(memory_regions@.take(i + 1).drop_last() =~= memory_regions@.take(i as int));
            lemma_usable_bytes_prefix(memory_regions@, (i + 1) as nat);
        }
        if let MemoryRegionKind::Usable = region.kind {
            total = total + (region.end - region.start);
        }
        i = i + 1;
    }
    assert(memory_regions@.take(i as int) =~= memory_regions@);
    total
}

/// The usable bytes of a prefix never exceed those of the whole map.
proof fn lemma_usable_bytes_prefix(regions: Seq<MemoryRegion>, k: nat)
    requires
        k <= regions.len(),
        forall|i: int| 0 <= i < regions.len() && is_usable(#[trigger] regions[i]) ==> regions[i].start <= regions[i].end,
    ensures
        0 <= usable_bytes(regions.take(k as int)) <= usable_bytes(regions),
    decreases regions.len(),
{
    if regions.len() > 0 {
        if k == regions.len() {
            assert(regions.take(k as int) =~= regions);
            lemma_usable_bytes_prefix(regions.drop_last(), (k - 1) as nat);
            assert(regions.drop_last().take(k - 1) =~= regions.drop_last());
        } else {
            lemma_usable_bytes_prefix(regions.drop_last(), k);
            assert(regions.drop_last().take(k as int) =~= regions.take(k as int));
            lemma_usable_bytes_prefix(regions.drop_last(), (regions.len() - 1) as nat);
            assert(regions.drop_last().take(regions.len() - 1) =~= regions.drop_last());
        }
    }
}

/// `address` rounded down to a frame boundary.
pub open spec fn frame_floor(address: int) -> int {
    address - address % (FRAME_SIZE as int)
}

/// The first frame a usable region offers: its start rounded up to a
/// frame boundary, and never below `FIRST_FRAME`.
pub open spec fn region_first_frame(region: MemoryRegion) -> int {
    let up = frame_floor(region.start + FRAME_SIZE - 1);
    if up < FIRST_FRAME {
        FIRST_FRAME as int
    } else {
        up
    }
}

/// Number of whole frames a region offers: none unless it is usable.
pub open spec fn region_frame_count(region: MemoryRegion) -> nat {
    let first = region_first_frame(region);
    let end = frame_floor(region.end as int);
    if is_usable(region) && first < end {
        ((end - first) / FRAME_SIZE as int) as nat
    } else {
        0
    }
}

/// The start addresses of the frames a region offers, in order.
pub open spec fn region_frames(region: MemoryRegion) -> Seq<u64> {
    Seq::new(region_frame_count(region), |k: int| (region_first_frame(region) + k * FRAME_SIZE) as u64)
}

/// The start addresses of every frame of the usable regions, region by
/// region, in order.
pub open spec fn usable_frames(regions: Seq<MemoryRegion>) -> Seq<u64>
    decreases regions.len(),
{
    if regions.len() == 0 {
        Seq::empty()
    } else {
        region_frames(regions[0]) + usable_frames(regions.drop_first())
    }
}

/// Frame number `n` of the usable regions, if there are that many.
pub open spec fn nth_usable_frame(regions: Seq<MemoryRegion>, n: nat) -> Option<u64> {
    if n < usable_frames(regions).len() {
        Some(usable_frames(regions)[n as int])
    } else {
        None
    }
}

/// Walking the frames up to number `n` works on plain machine words: the
/// start of each usable region passed can be rounded up without overflow,
/// and every frame passed (frame `n` included) is a valid physical address.
pub open spec fn frames_walkable(regions: Seq<MemoryRegion>, n: nat) -> bool
    decreases regions.len(),
{
    if regions.len() == 0 {
        true
    } else {
        let region = regions[0];
        let count = region_frame_count(region);
        &&& (is_usable(region) ==> region.start + FRAME_SIZE - 1 <= u64::MAX)
        &&& if n < count {
            region_first_frame(region) + n * FRAME_SIZE < PHYS_ADDR_LIMIT
        } else {
            &&& (count > 0 ==> region_first_frame(region) + (count - 1) * FRAME_SIZE < PHYS_ADDR_LIMIT)
            &&& frames_walkable(regions.drop_first(), (n - count) as nat)
        }
    }
}

/// Hands out the usable frames of the memory map one after another.
pub struct BootInfoFrameAllocator<'a> {
    memory_regions: &'a [MemoryRegion],
    next: usize,
}

impl<'a> BootInfoFrameAllocator<'a> {
    pub closed spec fn regions(&self) -> Seq<MemoryRegion> {
        self.memory_regions@
    }

    /// How many frames were handed out.
    pub closed spec fn handed_out(&self) -> nat {
        self.next as nat
    }

    /// The number of frames handed out so far.
    pub fn frames_handed_out(&self) -> (count: usize)
        ensures
            count == self.handed_out(),
    {
        self.next
    }

    /// An allocator that has handed out nothing yet.
    pub fn init(memory_regions: &'a [MemoryRegion]) -> (allocator: Self)
        ensures
            allocator.regions() == memory_regions@,
            allocator.handed_out() == 0,
    {
        BootInfoFrameAllocator { memory_regions, next: 0 }
    }

    /// The next usable frame, by its start address; `None` once they are
    /// all handed out.
    pub fn allocate_frame(&mut self) -> (frame: Option<u64>)
        requires
            frames_walkable(old(self).regions(), old(self).handed_out()),
            nth_usable_frame(old(self).regions(), old(self).handed_out()) is Some ==> old(self).handed_out()
                < usize::MAX,
        ensures
            frame == nth_usable_frame(old(self).regions(), old(self).handed_out()),
            final(self).regions() == old(self).regions(),
            final(self).handed_out() == old(self).handed_out() + if frame is Some {
                1int
            } else {
                0int
            },
            frame matches Some(address) ==> address % FRAME_SIZE == 0 && address < PHYS_ADDR_LIMIT,
    {
        let frame = nth_frame(self.memory_regions, self.next);
        if frame.is_some() {
            self.next = self.next + 1;
        }
        frame
    }
}

/// `address` rounded down to a frame boundary.
fn align_down(address: u64) -> (aligned: u64)
    ensures
        aligned == frame_floor(address as int),
{
    assert(address & !0xFFFu64 == address - address % 4096) by (bit_vector);
    address & !(FRAME_SIZE - 1)
}

proof fn lemma_frames_suffix(regions: Seq<MemoryRegion>, i: int)
    requires
        0 <= i < regions.len(),
    ensures
        usable_frames(regions.skip(i)) == region_frames(regions[i]) + usable_frames(regions.skip(i + 1)),
        regions.skip(i)[0] == regions[i],
        regions.skip(i).drop_first() == regions.skip(i + 1),
{
    assert(regions.skip(i).drop_first() =~= regions.skip(i + 1));
}

/// Frame number `n` of the usable regions.
fn nth_frame(regions: &[MemoryRegion], n: usize) -> (frame: Option<u64>)
    requires
        frames_walkable(regions@, n as nat),
    ensures
        frame == nth_usable_frame(regions@, n as nat),
        frame matches Some(address) ==> address % FRAME_SIZE == 0 && address < PHYS_ADDR_LIMIT,
{
    let mut remaining: usize = n;
    let mut i: usize = 0;
    assert(regions@.skip(0) =~= regions@);
    while i < regions.len()
        invariant
            i <= regions@.len(),
            remaining <= n,
            frames_walkable(regions@.skip(i as int), remaining as nat),
            nth_usable_frame(regions@, n as nat) == nth_usable_frame(regions@.skip(i as int), remaining as nat),
        decreases regions@.len() - i,
    {
        let region = regions[i];
        proof {
            lemma_frames_suffix(regions@, i as int);
        }
        if let MemoryRegionKind::Usable = region.kind {
            let up = align_down(region.start + (FRAME_SIZE - 1));
            let start = if up < FIRST_FRAME {
                FIRST_FRAME
            } else {
                up
            };
            let end = align_down(region.end);
            if start < end {
                let count = (end - start) / FRAME_SIZE;
                assert(count == region_frame_count(region));
                if (remaining as u64) < count {
                    proof {
                        assert((remaining as u64) * FRAME_SIZE < end - start) by (nonlinear_arith)
                            requires
                                (remaining as u64) < count,
                                count == (end - start) / 4096,
                                start < end,
                        ;
                        assert(((start + remaining * FRAME_SIZE) as int) % 4096 == 0) by (nonlinear_arith)
                            requires
                                start % 4096 == 0 || start == 0x1000,
                        ;
                    }
                    return Some(start + (remaining as u64) * FRAME_SIZE);
                }
                remaining = remaining - count as usize;
            } else {
                assert(region_frame_count(region) == 0);
            }
        } else {
            assert(region_frame_count(region) == 0);
        }
        i = i + 1;
    }
    assert(regions@.skip(i as int) =~= Seq::<MemoryRegion>::empty());
    None
}

/// Whether the allocator can walk the memory map up to frame number `n`;
/// see `frames_walkable`.
pub fn frames_walkable_to(memory_regions: &[MemoryRegion], n: usize) -> (ok: bool)
    ensures
        ok == frames_walkable(memory_regions@, n as nat),
{
    let mut remaining: usize = n;
    let mut i: usize = 0;
    assert(memory_regions@.skip(0) =~= memory_regions@);
    while i < memory_regions.len()
        invariant
            i <= memory_regions@.len(),
            frames_walkable(memory_regions@, n as nat) == frames_walkable(
                memory_regions@.skip(i as int),
                remaining as nat,
            ),
        decreases memory_regions@.len() - i,
    {
        let region = memory_regions[i];
        proof {
            lemma_frames_suffix(memory_regions@, i as int);
        }
        let mut count: u64 = 0;
        let mut first: u64 = 0;
        if let MemoryRegionKind::Usable = region.kind {
            if region.start > u64::MAX - (FRAME_SIZE - 1) {
                return false;
            }
            let up = align_down(region.start + (FRAME_SIZE - 1));
            first = if up < FIRST_FRAME {
                FIRST_FRAME
            } else {
                up
            };
            let end = align_down(region.end);
            if first < end {
                count = (end - first) / FRAME_SIZE;
                proof {
                    assert(count * FRAME_SIZE <= end - first) by (nonlinear_arith)
                        requires
                            count == (end - first) / 4096,
                            first < end,
                    ;
                }
            }
        }
        assert(count == region_frame_count(region));
        assert(count > 0 ==> first == region_first_frame(region) && first + count * FRAME_SIZE <= u64::MAX);
        if (remaining as u64) < count {
            proof {
                assert(remaining * FRAME_SIZE < count * FRAME_SIZE) by (nonlinear_arith)
                    requires
                        remaining < count,
                ;
            }
            return first + (remaining as u64) * FRAME_SIZE < PHYS_ADDR_LIMIT;
        }
        if count > 0 && first + (count - 1) * FRAME_SIZE >= PHYS_ADDR_LIMIT {
            return false;
        }
        remaining = remaining - count as usize;
        i = i + 1;
    }
    assert(memory_regions@.skip(i as int) =~= Seq::<MemoryRegion>::empty());
    true
}

/// The first and the last page of the kernel heap, by their start addresses.
pub fn heap_page_range() -> (pages: (u64, u64))
    ensures
        pages.0 == frame_floor(HEAP_START as int),
        pages.1 == frame_floor(HEAP_START + HEAP_SIZE - 1),
{
    (align_down(HEAP_START), align_down(HEAP_START + HEAP_SIZE - 1))
}

/// The regions come in address order and do not overlap.
pub open spec fn regions_ordered(regions: Seq<MemoryRegion>) -> bool {
    forall|i: int, j: int| 0 <= i < j < regions.len() ==> regions[i].end <= regions[j].start
}

/// Every frame a region offers lies inside it, on a frame boundary, not
/// below `FIRST_FRAME`; later frames lie higher.
proof fn lemma_region_frame_inside(region: MemoryRegion, k: int)
    requires
        0 <= k < region_frame_count(region),
    ensures
        region.start <= region_frames(region)[k] < region.end,
        region_frames(region)[k] % FRAME_SIZE == 0,
        region_frames(region)[k] >= FIRST_FRAME,
        region_frames(region)[k] == region_first_frame(region) + k * FRAME_SIZE,
        region_frames(region)[k] + FRAME_SIZE <= region.end,
        is_usable(region),
{
    let first = region_first_frame(region);
    let end = frame_floor(region.end as int);
    let count = region_frame_count(region);
    assert(k * 4096 < end - first) by (nonlinear_arith)
        requires
            0 <= k < count,
            count == (end - first) / 4096,
            first < end,
    ;
    assert(end % 4096 == 0 && end <= region.end) by (nonlinear_arith)
        requires
            end == region.end - region.end % 4096,
    ;
    assert((end - first) % 4096 == 0) by (nonlinear_arith)
        requires
            end % 4096 == 0,
            first % 4096 == 0,
    ;
    assert(k * 4096 + 4096 <= end - first) by (nonlinear_arith)
        requires
            0 <= k < count,
            count == (end - first) / 4096,
            (end - first) % 4096 == 0,
            first < end,
    ;
    assert(first % 4096 == 0);
    assert((first + k * 4096) % 4096 == 0) by (nonlinear_arith)
        requires
            first % 4096 == 0,
    ;
}

/// Every usable frame lies inside one of the regions, on a frame boundary.
proof fn lemma_frame_inside(regions: Seq<MemoryRegion>, j: int) -> (k: int)
    requires
        0 <= j < usable_frames(regions).len(),
    ensures
        0 <= k < regions.len(),
        regions[k].start <= usable_frames(regions)[j] < regions[k].end,
        usable_frames(regions)[j] % FRAME_SIZE == 0,
        usable_frames(regions)[j] >= FIRST_FRAME,
        usable_frames(regions)[j] + FRAME_SIZE <= regions[k].end,
        is_usable(regions[k]),
    decreases regions.len(),
{
    let here = region_frames(regions[0]);
    if j < here.len() {
        lemma_region_frame_inside(regions[0], j);
        0
    } else {
        let k = lemma_frame_inside(regions.drop_first(), j - here.len());
        k + 1
    }
}

/// In an ordered memory map the usable frames strictly increase, so the
/// allocator never hands out the same frame twice; each of them is a
/// frame-aligned address inside a region.
pub proof fn lemma_frames_increase(regions: Seq<MemoryRegion>, i: int, j: int)
    requires
        regions_ordered(regions),
        0 <= i < j < usable_frames(regions).len(),
    ensures
        usable_frames(regions)[i] < usable_frames(regions)[j],
        usable_frames(regions)[i] % FRAME_SIZE == 0,
    decreases regions.len(),
{
    let here = region_frames(regions[0]);
    let rest = regions.drop_first();
    lemma_frame_inside(regions, i);
    if j < here.len() {
        lemma_region_frame_inside(regions[0], i);
        lemma_region_frame_inside(regions[0], j);
    } else if i < here.len() {
        lemma_region_frame_inside(regions[0], i);
        let k = lemma_frame_inside(rest, j - here.len());
        assert(rest[k] == regions[k + 1]);
    } else {
        assert(regions_ordered(rest)) by {
            assert forall|a: int, b: int| 0 <= a < b < rest.len() implies rest[a].end <= rest[b].start by {
                assert(rest[a] == regions[a + 1] && rest[b] == regions[b + 1]);
            }
        }
        lemma_frames_increase(rest, i - here.len(), j - here.len());
    }
}

proof fn lemma_region_frame_complete(region: MemoryRegion, address: int) -> (k: int)
    requires
        is_usable(region),
        address % 4096 == 0,
        address >= 0x1000,
        address >= region.start,
        address + 4096 <= region.end,
    ensures
        0 <= k < region_frame_count(region),
        region_frames(region)[k] == address,
{
    let start = region.start as int;
    let end = region.end as int;
    let up = frame_floor(start + FRAME_SIZE - 1);
    assert(up % 4096 == 0 && start <= up < start + 4096) by (nonlinear_arith)
        requires
            up == (start + 4095) - (start + 4095) % 4096,
    ;
    assert(address >= up) by (nonlinear_arith)
        requires
            address % 4096 == 0,
            up % 4096 == 0,
            address >= start,
            up < start + 4096,
    ;
    let first = region_first_frame(region);
    let last = frame_floor(end);
    assert(last % 4096 == 0 && end - 4096 < last <= end) by (nonlinear_arith)
        requires
            last == end - end % 4096,
    ;
    assert(address + 4096 <= last) by (nonlinear_arith)
        requires
            address % 4096 == 0,
            last % 4096 == 0,
            address + 4096 <= end,
            end - 4096 < last,
    ;
    assert(first % 4096 == 0 && first <= address);
    let k = (address - first) / 4096;
    assert(k * 4096 == address - first && 0 <= k && k < (last - first) / 4096) by (nonlinear_arith)
        requires
            (address - first) % 4096 == 0,
            0 <= address - first,
            address - first + 4096 <= last - first,
            k == (address - first) / 4096,
    {
        assert((address - first) % 4096 == 0);
    }
    assert(region_frames(region)[k] == (first + k * FRAME_SIZE) as u64);
    k
}

/// Every whole frame of a usable region is handed out by the allocator at
/// some point: a frame-aligned `address` of at least `0x1000` such that the
/// 4 KiB from it lie inside the region is frame number `n` of the map, for
/// some `n`.
pub proof fn lemma_usable_frames_complete(regions: Seq<MemoryRegion>, i: int, address: int) -> (n: nat)
    requires
        0 <= i < regions.len(),
        is_usable(regions[i]),
        address % 4096 == 0,
        address >= 0x1000,
        address >= regions[i].start,
        address + 4096 <= regions[i].end,
    ensures
        nth_usable_frame(regions, n) == Some(address as u64),
    decreases regions.len(),
{
    let here = region_frames(regions[0]);
    if i == 0 {
        let k = lemma_region_frame_complete(regions[0], address);
        assert(usable_frames(regions)[k] == here[k]);
        k as nat
    } else {
        let rest = regions.drop_first();
        assert(rest[i - 1] == regions[i]);
        let m = lemma_usable_frames_complete(rest, i - 1, address);
        assert(usable_frames(regions)[here.len() + m as int] == usable_frames(rest)[m as int]);
        (here.len() + m) as nat
    }
}

/// Every frame the allocator hands out is a whole, frame-aligned 4 KiB of a
/// usable region, at or above `0x1000`: frame number `n` lies in region `i`.
pub proof fn lemma_usable_frames_sound(regions: Seq<MemoryRegion>, n: nat) -> (i: int)
    requires
        nth_usable_frame(regions, n) is Some,
    ensures
        0 <= i < regions.len(),
        is_usable(regions[i]),
        nth_usable_frame(regions, n).unwrap() % 4096 == 0,
        nth_usable_frame(regions, n).unwrap() >= 0x1000,
        regions[i].start <= nth_usable_frame(regions, n).unwrap(),
        nth_usable_frame(regions, n).unwrap() + 4096 <= regions[i].end,
{
    lemma_frame_inside(regions, n as int)
}

} // verus!
