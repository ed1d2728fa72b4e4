//! The pool of physically contiguous memory that devices read and write
//! themselves: a bump allocator over a reserved physical region.

use crate::memory::{
    map_page_s, page_of, usable_frames, MemoryManager, MemoryView, PageEntry, PRESENT, WRITABLE,
};
use vstd::prelude::*;

verus! {

/// Physical base of the pool: 64 MiB, clear of the loaded kernel. The frame
/// allocator keeps off this range.
pub const DMA_POOL_PHYS_BASE: u64 = 0x400_0000;

/// Size of the pool: 8 MiB.
pub const DMA_POOL_SIZE: u64 = 0x80_0000;

/// Where the pool is mapped in the kernel's address space.
pub const DMA_POOL_VIRT_BASE: u64 = 0xFFFF_FF00_0000_0000;

/// The entry of page `i` of the pool.
pub open spec fn pool_entry(i: nat) -> PageEntry {
    PageEntry { frame: (DMA_POOL_PHYS_BASE + 4096 * i) as u64, flags: PRESENT | WRITABLE }
}

/// Mapping the pages of the pool from the `i`th on; it ends at the first that cannot be
/// mapped.
pub open spec fn pool_pages_s(m: MemoryView, i: nat) -> (bool, MemoryView)
    decreases DMA_POOL_SIZE / 4096 - i,
{
    if i >= DMA_POOL_SIZE / 4096 {
        (true, m)
    } else {
        let (ok, kernel, kernel_tables, next) = map_page_s(
            usable_frames(m.regions),
            m.next,
            m.kernel,
            m.kernel_tables,
            page_of((DMA_POOL_VIRT_BASE + 4096 * i) as u64),
            pool_entry(i),
        );
        let m1 = MemoryView { kernel, kernel_tables, next, ..m };
        if ok {
            pool_pages_s(m1, i + 1)
        } else {
            (false, m1)
        }
    }
}

/// Maps the pool into the kernel's address space. Returns whether all of it could be
/// mapped.
pub fn map_pool(mem: &mut MemoryManager) -> (ok: bool)
    requires
        old(mem).wf(),
    ensures
        final(mem).wf(),
        (ok, final(mem)@) == pool_pages_s(old(mem)@, 0),
{
    let pages: u64 = DMA_POOL_SIZE / 4096;
    let mut i: u64 = 0;
    while i < pages
        invariant
            mem.wf(),
            pages == DMA_POOL_SIZE / 4096,
            i <= pages,
            pool_pages_s(old(mem)@, 0) == pool_pages_s(mem@, i as nat),
        decreases pages - i,
    {
        let frame: u64 = DMA_POOL_PHYS_BASE + 4096 * i;
        let page: u64 = (DMA_POOL_VIRT_BASE + 4096 * i) / 4096 % 0x10_0000_0000;
        assert(page == page_of((DMA_POOL_VIRT_BASE + 4096 * i) as u64));
        if !mem.map_kernel_page(page, PageEntry { frame, flags: PRESENT | WRITABLE }) {
            return false;
        }
        i = i + 1;
    }
    true
}

/// `n` rounded up to whole pages.
pub open spec fn page_up(n: int) -> int {
    (n + 4095) / 4096 * 4096
}

/// The state of the pool: the next free offset, the size, and whether a mark is
/// set.
#[derive(Debug, Clone, Copy, PartialEq, Eq, Structural)]
pub struct DmaAllocator {
    pub next_offset: u64,
    pub size: u64,
    pub in_mark: bool,
}

/// A piece of the pool: where the processor and where a device finds it.
#[derive(Debug, Clone, Copy, PartialEq, Eq, Structural)]
pub struct DmaBuffer {
    pub virt: u64,
    pub phys: u64,
    pub len: usize,
}

/// Allocating `len` bytes, which are rounded up to whole pages.
pub open spec fn alloc_dma_s(a: DmaAllocator, len: int) -> (Option<DmaBuffer>, DmaAllocator) {
    let offset = page_up(a.next_offset as int);
    let rounded = page_up(len);
    if offset + rounded > a.size {
        (None, a)
    } else {
        (
            Some(
                DmaBuffer {
                    virt: (DMA_POOL_VIRT_BASE + offset) as u64,
                    phys: (DMA_POOL_PHYS_BASE + offset) as u64,
                    len: rounded as usize,
                },
            ),
            DmaAllocator { next_offset: (offset + rounded) as u64, ..a },
        )
    }
}

impl DmaAllocator {
    /// The pool is within its region, and what is used is within the pool.
    pub open spec fn wf(&self) -> bool {
        self.next_offset <= self.size <= DMA_POOL_SIZE
    }

    /// The whole pool, all of it free.
    pub fn init() -> (r: DmaAllocator)
        ensures
            r.wf(),
            r == (DmaAllocator { next_offset: 0, size: DMA_POOL_SIZE, in_mark: false }),
    {
        DmaAllocator { next_offset: 0, size: DMA_POOL_SIZE, in_mark: false }
    }

    /// Allocates physically contiguous memory in whole pages, which is to be
    /// zeroed. None if the pool is exhausted.
    pub fn alloc_dma(&mut self, len: usize) -> (r: Option<DmaBuffer>)
        requires
            old(self).wf(),
            len + 4095 <= usize::MAX,
        ensures
            final(self).wf(),
            (r, *final(self)) == alloc_dma_s(*old(self), len as int),
    {
        let rounded: usize = (len + 4095) / 4096 * 4096;
        let offset: u64 = (self.next_offset + 4095) / 4096 * 4096;
        if offset > self.size || rounded as u64 > self.size - offset {
            return None;
        }
        self.next_offset = offset + rounded as u64;
        Some(
            DmaBuffer {
                virt: DMA_POOL_VIRT_BASE + offset,
                phys: DMA_POOL_PHYS_BASE + offset,
                len: rounded,
            },
        )
    }

    /// Records how much of the pool is used, so that what is allocated from now
    /// on can be given back together.
    pub fn mark(&mut self) -> (r: u64)
        requires
            !old(self).in_mark,
        ensures
            r == old(self).next_offset,
            *final(self) == (DmaAllocator { in_mark: true, ..*old(self) }),
    {
        self.in_mark = true;
        self.next_offset
    }

    /// Gives back everything that was allocated since a mark. A mark beyond what
    /// is used is ignored.
    pub fn reset_to(&mut self, mark: u64)
        requires
            old(self).in_mark,
        ensures
            *final(self) == (DmaAllocator {
                in_mark: false,
                next_offset: if mark <= old(self).next_offset {
                    mark
                } else {
                    old(self).next_offset
                },
                ..*old(self)
            }),
    {
        self.in_mark = false;
        if mark <= self.next_offset {
            self.next_offset = mark;
        }
    }

    /// How many bytes are used, and how many there are.
    pub fn stats(&self) -> (r: (u64, u64))
        ensures
            r == (self.next_offset, self.size),
    {
        (self.next_offset, self.size)
    }
}

/// The kernel address of a physical address in the pool.
pub fn phys_to_virt(phys: u64) -> (r: u64)
    requires
        DMA_POOL_PHYS_BASE <= phys < DMA_POOL_PHYS_BASE + DMA_POOL_SIZE,
    ensures
        r == DMA_POOL_VIRT_BASE + (phys - DMA_POOL_PHYS_BASE),
{
    DMA_POOL_VIRT_BASE + (phys - DMA_POOL_PHYS_BASE)
}

/// Two allocations lie within the pool and do not overlap, and each begins at a
/// page.
pub proof fn law_allocations_do_not_overlap(a: DmaAllocator, len1: int, len2: int)
    requires
        a.wf(),
        len1 >= 0,
        len2 >= 0,
        alloc_dma_s(a, len1).0 is Some,
        alloc_dma_s(alloc_dma_s(a, len1).1, len2).0 is Some,
    ensures
        ({
            let (r1, a1) = alloc_dma_s(a, len1);
            let (r2, a2) = alloc_dma_s(a1, len2);
            let (b1, b2) = (r1->Some_0, r2->Some_0);
            &&& DMA_POOL_PHYS_BASE <= b1.phys
            &&& b1.phys % 4096 == 0
            &&& b1.len >= len1
            &&& b1.phys + b1.len <= b2.phys
            &&& b2.phys + b2.len <= DMA_POOL_PHYS_BASE + DMA_POOL_SIZE
            &&& b1.virt - DMA_POOL_VIRT_BASE == b1.phys - DMA_POOL_PHYS_BASE
        }),
{
}

/// What was allocated after a mark is free again after going back to it.
pub proof fn law_reset_gives_back(a: DmaAllocator, len: int)
    requires
        a.wf(),
        len >= 0,
    ensures
        a.next_offset <= alloc_dma_s(a, len).1.next_offset,
        ({
            let a1 = alloc_dma_s(a, len).1;
            (DmaAllocator { next_offset: a.next_offset, ..a1 }) == a
        }),
{
}

} // verus!
