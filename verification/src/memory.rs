//! Physical frames and address spaces.
//!
//! An address space is what its page tables map: for each mapped page, the frame
//! behind it and the flags of its leaf entry, and which tables there are below the
//! root table, with their frames. The functions here decide every mapping and hand out
//! every frame, those of the tables too; they return what is to be copied, zeroed or
//! entered into the tables of the processor.

use crate::driver::dma::{DMA_POOL_PHYS_BASE, DMA_POOL_SIZE};
use crate::ordered::{in_order, keys_in_order, lemma_has_order, lemma_in_order, sorted_keys};
use std::collections::BTreeMap;
use vstd::prelude::*;

verus! {

broadcast use vstd::std_specs::btree::group_btree_axioms;

/// Start of the user heap region.
pub const USER_HEAP_START: u64 = 0x0000_0001_0000_0000;

/// The page is mapped.
pub const PRESENT: u64 = 1;

/// The page may be written to.
pub const WRITABLE: u64 = 2;

/// The page may be used by ring 3.
pub const USER_ACCESSIBLE: u64 = 4;

/// Writes go through the cache.
pub const WRITE_THROUGH: u64 = 8;

/// The page is not cached.
pub const NO_CACHE: u64 = 16;

/// The entry maps a large page.
pub const HUGE_PAGE: u64 = 128;

/// Marks a copy-on-write page. The processor ignores this bit.
pub const COW_FLAG: u64 = 512;

/// The page holds no code.
pub const NO_EXECUTE: u64 = 0x8000_0000_0000_0000;

/// The number of pages of the half of the address space that user code has.
pub const USER_PAGES: u64 = 0x8_0000_0000;

/// Flags of ordinary writable kernel memory.
pub fn kernel_rw_flags() -> (r: u64)
    ensures
        r == PRESENT | WRITABLE,
{
    PRESENT | WRITABLE
}

/// Flags of user-accessible writable memory.
pub fn user_rw_flags() -> (r: u64)
    ensures
        r == PRESENT | WRITABLE | USER_ACCESSIBLE,
{
    PRESENT | WRITABLE | USER_ACCESSIBLE
}

/// Whether an address is one the processor accepts: its bits from 47 on are all
/// equal.
pub open spec fn canonical(addr: u64) -> bool {
    addr < 0x8000_0000_0000 || addr >= 0xffff_8000_0000_0000
}

/// `x86_64::VirtAddr::try_new`: an address is refused exactly if bits 47 to 63
/// are not all equal.
#[verifier::external_body]
pub(crate) fn is_canonical(addr: u64) -> (r: bool)
    ensures
        r == canonical(addr),
{
    x86_64::VirtAddr::try_new(addr).is_ok()
}

/// The number of the page that holds a virtual address.
pub open spec fn page_of(vaddr: u64) -> u64 {
    (vaddr / 4096) % 0x10_0000_0000
}

/// A piece of physical memory, and whether it is free for use.
#[derive(Debug, Clone, Copy, PartialEq, Eq, Structural)]
pub struct MemoryRegion {
    pub start: u64,
    pub end: u64,
    pub usable: bool,
}

/// Whether an address is in the range that is kept for device buffers.
pub open spec fn in_dma_pool(addr: u64) -> bool {
    DMA_POOL_PHYS_BASE <= addr < DMA_POOL_PHYS_BASE + DMA_POOL_SIZE
}

/// The frame that holds a physical address.
pub open spec fn frame_at(addr: u64) -> u64 {
    (addr - addr % 4096) as u64
}

/// How many frames begin in a region.
pub open spec fn frame_count(r: MemoryRegion) -> nat {
    if r.usable && r.start < r.end {
        ((r.end - r.start + 4095) / 4096) as nat
    } else {
        0
    }
}

/// The frames among the first `n` of a region that may be handed out.
pub open spec fn frames_in(r: MemoryRegion, n: nat) -> Seq<u64>
    decreases n,
{
    if n == 0 {
        Seq::empty()
    } else {
        let before = frames_in(r, (n - 1) as nat);
        let addr = (r.start + 4096 * (n - 1)) as u64;
        if in_dma_pool(addr) {
            before
        } else {
            before.push(frame_at(addr))
        }
    }
}

/// The frames of the first `k` regions that may be handed out.
pub open spec fn frames_of(regions: Seq<MemoryRegion>, k: nat) -> Seq<u64>
    decreases k,
{
    if k == 0 {
        Seq::empty()
    } else {
        frames_of(regions, (k - 1) as nat) + frames_in(
            regions[k - 1],
            frame_count(regions[k - 1]),
        )
    }
}

/// All frames that may be handed out, in order.
pub open spec fn usable_frames(regions: Seq<MemoryRegion>) -> Seq<u64> {
    frames_of(regions, regions.len())
}

/// The next frame, and what is left to hand out after it.
pub open spec fn frame_s(regions: Seq<MemoryRegion>, next: nat) -> Option<u64> {
    if next < usable_frames(regions).len() {
        Some(usable_frames(regions)[next as int])
    } else {
        None
    }
}

/// How many frames were handed out after one more request.
pub open spec fn served(regions: Seq<MemoryRegion>, next: nat) -> nat {
    if next < usable_frames(regions).len() {
        next + 1
    } else {
        next
    }
}

/// Physical addresses have 52 bits.
pub open spec fn regions_ok(regions: Seq<MemoryRegion>) -> bool {
    forall|i: int| 0 <= i < regions.len() ==> (#[trigger] regions[i]).end <= 0x10_0000_0000_0000
}

/// Hands out the usable frames of the boot memory map, each once. Frames do not
/// come back.
pub struct BootInfoFrameAllocator {
    memory_map: Vec<MemoryRegion>,
    next: usize,
}

impl BootInfoFrameAllocator {
    /// The memory regions.
    pub closed spec fn regions(&self) -> Seq<MemoryRegion> {
        self.memory_map@
    }

    /// How many frames were handed out.
    pub closed spec fn next(&self) -> nat {
        self.next as nat
    }

    pub closed spec fn wf(&self) -> bool {
        &&& regions_ok(self.memory_map@)
        &&& self.next <= usable_frames(self.memory_map@).len() < usize::MAX
    }

    /// An allocator over a memory map.
    pub fn init(memory_map: Vec<MemoryRegion>) -> (r: BootInfoFrameAllocator)
        requires
            regions_ok(memory_map@),
            usable_frames(memory_map@).len() < usize::MAX,
        ensures
            r.wf(),
            r.regions() == memory_map@,
            r.next() == 0,
    {
        BootInfoFrameAllocator { memory_map, next: 0 }
    }

    /// The frame at position `self.next` in the list of usable frames.
    fn nth_usable(&self) -> (r: Option<u64>)
        requires
            self.wf(),
        ensures
            r == frame_s(self.regions(), self.next()),
    {
        let ghost regions = self.memory_map@;
        let mut seen: usize = 0;
        let mut k: usize = 0;
        while k < self.memory_map.len()
            invariant
                self.wf(),
                regions == self.memory_map@,
                k <= regions.len(),
                seen <= self.next,
                seen == frames_of(regions, k as nat).len(),
            decreases regions.len() - k,
        {
            let r = self.memory_map[k];
            let mut n: u64 = 0;
            proof {
                assert(frames_of(regions, k as nat) + frames_in(r, 0) =~= frames_of(
                    regions,
                    k as nat,
                ));
                assert(r.end <= 0x10_0000_0000_0000);
            }
            if r.usable && r.start < r.end {
                let count: u64 = (r.end - r.start + 4095) / 4096;
                while n < count
                    invariant
                        regions == self.memory_map@,
                        k < regions.len(),
                        r == regions[k as int],
                        r.usable && r.start < r.end <= 0x10_0000_0000_0000,
                        count == frame_count(r),
                        n <= count,
                        seen <= self.next,
                        seen == frames_of(regions, k as nat).len() + frames_in(r, n as nat).len(),
                    decreases count - n,
                {
                    let addr: u64 = r.start + 4096 * n;
                    if addr < DMA_POOL_PHYS_BASE || addr >= DMA_POOL_PHYS_BASE + DMA_POOL_SIZE {
                        if seen == self.next {
                            proof {
                                lemma_frames_in_prefix(r, (n + 1) as nat, count as nat);
                                lemma_frames_of_prefix(regions, (k + 1) as nat, regions.len());
                            }
                            return Some(addr - addr % 4096);
                        }
                        seen = seen + 1;
                    }
                    n = n + 1;
                }
            }
            k = k + 1;
        }
        None
    }

    /// Hands out a frame, if one is left.
    pub fn allocate_frame(&mut self) -> (r: Option<u64>)
        requires
            old(self).wf(),
        ensures
            final(self).wf(),
            final(self).regions() == old(self).regions(),
            final(self).next() == served(old(self).regions(), old(self).next()),
            r == frame_s(old(self).regions(), old(self).next()),
    {
        let r = self.nth_usable();
        if r.is_some() {
            self.next = self.next + 1;
        }
        r
    }
}

proof fn lemma_frames_in_prefix(r: MemoryRegion, a: nat, b: nat)
    requires
        a <= b,
    ensures
        frames_in(r, a).len() <= frames_in(r, b).len(),
        forall|i: int|
            0 <= i < frames_in(r, a).len() ==> #[trigger] frames_in(r, b)[i] == frames_in(r, a)[i],
    decreases b,
{
    if a < b {
        lemma_frames_in_prefix(r, a, (b - 1) as nat);
    }
}

proof fn lemma_frames_of_prefix(regions: Seq<MemoryRegion>, a: nat, b: nat)
    requires
        a <= b,
    ensures
        frames_of(regions, a).len() <= frames_of(regions, b).len(),
        forall|i: int|
            0 <= i < frames_of(regions, a).len() ==> #[trigger] frames_of(regions, b)[i]
                == frames_of(regions, a)[i],
    decreases b,
{
    if a < b {
        lemma_frames_of_prefix(regions, a, (b - 1) as nat);
    }
}

/// No frame lies in the pool that is kept for device buffers.
pub proof fn law_frames_keep_off_the_dma_pool(regions: Seq<MemoryRegion>, i: int)
    requires
        regions_ok(regions),
        0 <= i < usable_frames(regions).len(),
    ensures
        !in_dma_pool(usable_frames(regions)[i]),
        usable_frames(regions)[i] % 4096 == 0,
{
    lemma_frames_of_place(regions, regions.len(), i);
}

/// If no two usable regions overlap and all begin at a page, no frame is handed
/// out twice.
pub proof fn law_frames_are_distinct(regions: Seq<MemoryRegion>, i: int, j: int)
    requires
        regions_ok(regions),
        regions_apart(regions),
        0 <= i < j < usable_frames(regions).len(),
    ensures
        usable_frames(regions)[i] != usable_frames(regions)[j],
{
    lemma_frames_distinct(regions, regions.len(), i, j);
}

proof fn lemma_frames_in_place(r: MemoryRegion, n: nat, i: int)
    requires
        r.start < r.end <= 0x10_0000_0000_0000,
        n <= frame_count(r),
        0 <= i < frames_in(r, n).len(),
    ensures
        ({
            let f = frames_in(r, n)[i];
            &&& f % 4096 == 0
            &&& !in_dma_pool(f)
            &&& f <= r.start + 4096 * (n - 1) < r.end
            &&& r.start % 4096 == 0 ==> r.start <= f
        }),
    decreases n,
{
    let before = frames_in(r, (n - 1) as nat);
    if i < before.len() {
        lemma_frames_in_place(r, (n - 1) as nat, i);
    }
}

proof fn lemma_frames_in_increase(r: MemoryRegion, n: nat, i: int, j: int)
    requires
        r.start < r.end <= 0x10_0000_0000_0000,
        r.start % 4096 == 0,
        n <= frame_count(r),
        0 <= i < j < frames_in(r, n).len(),
    ensures
        frames_in(r, n)[i] < frames_in(r, n)[j],
    decreases n,
{
    let before = frames_in(r, (n - 1) as nat);
    if j < before.len() {
        lemma_frames_in_increase(r, (n - 1) as nat, i, j);
    } else {
        lemma_frames_in_place(r, (n - 1) as nat, i);
    }
}

proof fn lemma_frames_of_place(regions: Seq<MemoryRegion>, k: nat, i: int) -> (m: int)
    requires
        regions_ok(regions),
        k <= regions.len(),
        0 <= i < frames_of(regions, k).len(),
    ensures
        0 <= m < k,
        regions[m].usable,
        ({
            let f = frames_of(regions, k)[i];
            &&& f % 4096 == 0
            &&& !in_dma_pool(f)
            &&& f < regions[m].end
            &&& regions[m].start % 4096 == 0 ==> regions[m].start <= f
        }),
    decreases k,
{
    let before = frames_of(regions, (k - 1) as nat);
    if i < before.len() {
        lemma_frames_of_place(regions, (k - 1) as nat, i)
    } else {
        let r = regions[k - 1];
        lemma_frames_in_place(r, frame_count(r), i - before.len());
        k - 1
    }
}

proof fn lemma_frames_distinct(regions: Seq<MemoryRegion>, k: nat, i: int, j: int)
    requires
        regions_ok(regions),
        k <= regions.len(),
        forall|a: int|
            0 <= a < regions.len() && (#[trigger] regions[a]).usable ==> regions[a].start % 4096
                == 0,
        forall|a: int, b: int|
            0 <= a < b < regions.len() && (#[trigger] regions[a]).usable && (
            #[trigger] regions[b]).usable ==> regions[a].end <= regions[b].start || regions[b].end
                <= regions[a].start,
        0 <= i < j < frames_of(regions, k).len(),
    ensures
        frames_of(regions, k)[i] != frames_of(regions, k)[j],
    decreases k,
{
    let before = frames_of(regions, (k - 1) as nat);
    let r = regions[k - 1];
    if j < before.len() {
        lemma_frames_distinct(regions, (k - 1) as nat, i, j);
    } else if i < before.len() {
        let m = lemma_frames_of_place(regions, (k - 1) as nat, i);
        lemma_frames_in_place(r, frame_count(r), j - before.len());
    } else {
        lemma_frames_in_increase(r, frame_count(r), i - before.len(), j - before.len());
    }
}

/// A leaf entry of the page tables: the frame behind a page, and the flags.
#[derive(Debug, Clone, Copy, PartialEq, Eq, Structural)]
pub struct PageEntry {
    pub frame: u64,
    pub flags: u64,
}

/// A table below the root table, by its frame. Where a large page stands in its place
/// there is no table, and nothing can be mapped through it.
#[derive(Debug, Clone, Copy, PartialEq, Eq, Structural)]
pub struct TableEntry {
    pub frame: u64,
    pub huge: bool,
}

/// The tables below a root table, by their numbers.
pub type Tables = Map<u64, TableEntry>;

/// The number of the table that the way to a page leads through. The root table points
/// to tables of level 0, and tables of level 2 hold the entries of pages. Tables are
/// numbered as a walk from the root comes to them.
pub open spec fn table_key(page: u64, level: nat) -> u64 {
    if level == 0 {
        (4 * (page - page % 0x800_0000)) as u64
    } else if level == 1 {
        (4 * (page - page % 0x4_0000) + 1) as u64
    } else {
        (4 * (page - page % 0x200) + 2) as u64
    }
}

/// The number of a table on the way to a page.
pub fn table_number(page: u64, level: u8) -> (r: u64)
    requires
        page < 0x10_0000_0000,
    ensures
        r == table_key(page, level as nat),
{
    if level == 0 {
        4 * (page - page % 0x800_0000)
    } else if level == 1 {
        4 * (page - page % 0x4_0000) + 1
    } else {
        4 * (page - page % 0x200) + 2
    }
}

/// Making the tables on the way to a page, from a level on, where they are missing.
/// Each takes the next frame. It ends where no frame is left, or at a large page.
pub open spec fn tables_s(frames: Seq<u64>, next: nat, t: Tables, page: u64, level: nat) -> (
    bool,
    Tables,
    nat,
)
    decreases 3 - level,
{
    let key = table_key(page, level);
    if level >= 3 {
        (true, t, next)
    } else if t.contains_key(key) {
        if t[key].huge {
            (false, t, next)
        } else {
            tables_s(frames, next, t, page, level + 1)
        }
    } else if next >= frames.len() {
        (false, t, next)
    } else {
        let made = TableEntry { frame: frames[next as int], huge: false };
        tables_s(frames, next + 1, t.insert(key, made), page, level + 1)
    }
}

/// Mapping a page: first the tables on the way to it are made, and a page that is
/// mapped already stays as it is.
pub open spec fn map_page_s(
    frames: Seq<u64>,
    next: nat,
    m: Map<u64, PageEntry>,
    t: Tables,
    page: u64,
    entry: PageEntry,
) -> (bool, Map<u64, PageEntry>, Tables, nat) {
    let (ok, t1, next1) = tables_s(frames, next, t, page, 0);
    if ok && !m.contains_key(page) {
        (true, m.insert(page, entry), t1, next1)
    } else {
        (false, m, t1, next1)
    }
}

/// A large page stands on the way to a page.
pub open spec fn huge_on_way(t: Tables, page: u64) -> bool {
    exists|level: nat|
        level < 3 && t.contains_key(#[trigger] table_key(page, level)) && t[table_key(
            page,
            level,
        )].huge
}

/// Making tables takes only what it needs: the tables that there were stay, no large
/// page is added, and it fails only for want of frames or at a large page.
pub proof fn lemma_tables(frames: Seq<u64>, next: nat, t: Tables, page: u64, level: nat)
    ensures
        ({
            let (ok, t1, next1) = tables_s(frames, next, t, page, level);
            &&& next <= next1
            &&& next <= frames.len() ==> next1 <= frames.len()
            &&& forall|k: u64| #[trigger] t.contains_key(k) ==> t1.contains_key(k) && t1[k] == t[k]
            &&& forall|k: u64| #[trigger]
                t1.contains_key(k) && !t.contains_key(k) ==> !t1[k].huge
            &&& ok || next1 >= frames.len() || huge_on_way(t, page)
        }),
    decreases 3 - level,
{
    let key = table_key(page, level);
    if level < 3 {
        if t.contains_key(key) {
            if !t[key].huge {
                lemma_tables(frames, next, t, page, level + 1);
            }
        } else if next < frames.len() {
            let made = TableEntry { frame: frames[next as int], huge: false };
            let grown = t.insert(key, made);
            lemma_tables(frames, next + 1, grown, page, level + 1);
            let t1 = tables_s(frames, next, t, page, level).1;
            assert forall|k: u64| #[trigger] t.contains_key(k) implies t1.contains_key(k) && t1[k]
                == t[k] by {
                assert(grown.contains_key(k));
            }
            assert forall|k: u64| #[trigger]
                t1.contains_key(k) && !t.contains_key(k) implies !t1[k].huge by {
                if k == key {
                    assert(grown.contains_key(k));
                }
            }
            if huge_on_way(grown, page) {
                let l = choose|l: nat|
                    l < 3 && grown.contains_key(#[trigger] table_key(page, l)) && grown[table_key(
                        page,
                        l,
                    )].huge;
                assert(t.contains_key(table_key(page, l)));
            }
        }
    }
}

/// What an address space maps, and its tables.
pub struct AddressSpace {
    pages: BTreeMap<u64, PageEntry>,
    tables: BTreeMap<u64, TableEntry>,
}

impl AddressSpace {
    pub closed spec fn view(&self) -> Map<u64, PageEntry> {
        self.pages@
    }

    /// The tables below the root table.
    pub closed spec fn tables(&self) -> Tables {
        self.tables@
    }

    /// An address space that maps nothing.
    pub fn new() -> (r: AddressSpace)
        ensures
            r@ == Map::<u64, PageEntry>::empty(),
            r.tables() == Map::<u64, TableEntry>::empty(),
    {
        AddressSpace { pages: BTreeMap::new(), tables: BTreeMap::new() }
    }

    /// Takes note of a table that there is, or of a large page in its place.
    pub fn add_table(&mut self, page: u64, level: u8, table: TableEntry)
        requires
            page < 0x10_0000_0000,
        ensures
            final(self)@ == old(self)@,
            final(self).tables() == old(self).tables().insert(
                table_key(page, level as nat),
                table,
            ),
    {
        let key: u64 = table_number(page, level);
        self.tables.insert(key, table);
    }

    /// The numbers of the tables in increasing order.
    pub fn table_keys(&self) -> (r: Vec<u64>)
        ensures
            sorted_keys(r@, self.tables().dom()),
    {
        keys_in_order(&self.tables)
    }

    /// A table by its number.
    pub fn table(&self, key: u64) -> (r: Option<TableEntry>)
        ensures
            r == (if self.tables().contains_key(key) {
                Some(self.tables()[key])
            } else {
                None
            }),
    {
        match self.tables.get(&key) {
            Some(t) => Some(*t),
            None => None,
        }
    }

    /// Maps a page, and makes the tables on the way to it.
    pub(crate) fn map_to(
        &mut self,
        frames: &mut BootInfoFrameAllocator,
        page: u64,
        entry: PageEntry,
    ) -> (r: bool)
        requires
            old(frames).wf(),
            page < 0x10_0000_0000,
        ensures
            final(frames).wf(),
            final(frames).regions() == old(frames).regions(),
            (r, final(self)@, final(self).tables(), final(frames).next()) == map_page_s(
                usable_frames(old(frames).regions()),
                old(frames).next(),
                old(self)@,
                old(self).tables(),
                page,
                entry,
            ),
    {
        let ghost all = usable_frames(old(frames).regions());
        let ghost want = tables_s(all, old(frames).next(), old(self).tables(), page, 0);
        let mut level: u8 = 0;
        while level < 3
            invariant
                page < 0x10_0000_0000,
                level <= 3,
                frames.wf(),
                frames.regions() == old(frames).regions(),
                all == usable_frames(frames.regions()),
                self@ == old(self)@,
                want == tables_s(all, old(frames).next(), old(self).tables(), page, 0),
                want == tables_s(all, frames.next(), self.tables(), page, level as nat),
            decreases 3 - level,
        {
            let key: u64 = table_number(page, level);
            match self.table(key) {
                Some(t) => {
                    if t.huge {
                        return false;
                    }
                },
                None => match frames.allocate_frame() {
                    None => return false,
                    Some(frame) => {
                        self.tables.insert(key, TableEntry { frame, huge: false });
                    },
                },
            }
            level = level + 1;
        }
        self.map(page, entry)
    }

    /// The entry of a page.
    pub fn entry(&self, page: u64) -> (r: Option<PageEntry>)
        ensures
            r == (if self@.contains_key(page) {
                Some(self@[page])
            } else {
                None
            }),
    {
        match self.pages.get(&page) {
            Some(e) => Some(*e),
            None => None,
        }
    }

    /// Maps a page that is not mapped yet; otherwise nothing changes.
    pub fn map(&mut self, page: u64, entry: PageEntry) -> (r: bool)
        ensures
            r == !old(self)@.contains_key(page),
            final(self)@ == (if r {
                old(self)@.insert(page, entry)
            } else {
                old(self)@
            }),
            final(self).tables() == old(self).tables(),
    {
        if self.pages.contains_key(&page) {
            false
        } else {
            self.pages.insert(page, entry);
            true
        }
    }

    /// Gives a mapped page another entry.
    pub fn remap(&mut self, page: u64, entry: PageEntry)
        ensures
            final(self)@ == old(self)@.insert(page, entry),
            final(self).tables() == old(self).tables(),
    {
        self.pages.insert(page, entry);
    }

    /// Takes a page out of the mappings; returns whether it was mapped.
    pub fn unmap(&mut self, page: u64) -> (r: bool)
        ensures
            r == old(self)@.contains_key(page),
            final(self)@ == old(self)@.remove(page),
            final(self).tables() == old(self).tables(),
    {
        match self.pages.remove(&page) {
            Some(_) => true,
            None => {
                assert(self@ =~= old(self)@.remove(page));
                false
            },
        }
    }

    /// The same mappings once more.
    pub fn duplicate(&self) -> (r: AddressSpace)
        ensures
            r@ == self@,
            r.tables() == self.tables(),
    {
        AddressSpace { pages: self.pages.clone(), tables: self.tables.clone() }
    }

    /// The mapped pages in increasing order.
    pub fn pages(&self) -> (r: Vec<u64>)
        ensures
            sorted_keys(r@, self@.dom()),
    {
        keys_in_order(&self.pages)
    }
}

/// Whether a page belongs to user code.
pub open spec fn user_page(page: u64, e: PageEntry) -> bool {
    page < USER_PAGES && e.flags & USER_ACCESSIBLE != 0
}

/// The entry of a page that is shared until it is written to: a writable page
/// becomes read-only and is marked; a read-only page stays as it is.
pub open spec fn shared_entry(e: PageEntry) -> PageEntry {
    if e.flags & WRITABLE != 0 {
        PageEntry { frame: e.frame, flags: (e.flags & !WRITABLE) | COW_FLAG }
    } else {
        e
    }
}

/// An address space whose user pages are shared.
pub open spec fn shared_space(m: Map<u64, PageEntry>) -> Map<u64, PageEntry> {
    Map::new(
        |p: u64| m.contains_key(p),
        |p: u64|
            if user_page(p, m[p]) {
                shared_entry(m[p])
            } else {
                m[p]
            },
    )
}

/// The memory state: the frames, the kernel's own mappings, and the address
/// spaces of user tasks by the physical address of their root table.
pub struct MemoryManager {
    frame_allocator: BootInfoFrameAllocator,
    kernel: AddressSpace,
    spaces: BTreeMap<u64, AddressSpace>,
    user_page_tables: Vec<u64>,
    physical_memory_offset: u64,
}

#[verifier::ext_equal]
pub struct MemoryView {
    pub regions: Seq<MemoryRegion>,
    pub next: nat,
    pub kernel: Map<u64, PageEntry>,
    pub kernel_tables: Tables,
    pub spaces: Map<u64, Map<u64, PageEntry>>,
    pub space_tables: Map<u64, Tables>,
    pub roots: Seq<u64>,
    pub offset: u64,
}

/// The frame that comes next.
pub open spec fn next_frame(m: MemoryView) -> Option<u64> {
    frame_s(m.regions, m.next)
}

/// The state after a frame was asked for.
pub open spec fn frame_taken(m: MemoryView) -> MemoryView {
    MemoryView { next: served(m.regions, m.next), ..m }
}

/// Mapping `n` pages from `page` on to fresh frames. For each page a frame is taken,
/// then frames for the tables that are missing. It stops at the first page that cannot
/// be mapped, whose frame is lost, or when no frame is left.
pub open spec fn map_pages_s(
    frames: Seq<u64>,
    next: nat,
    m: Map<u64, PageEntry>,
    t: Tables,
    page: u64,
    n: nat,
    flags: u64,
) -> (bool, Map<u64, PageEntry>, Tables, nat)
    decreases n,
{
    if n == 0 {
        (true, m, t, next)
    } else if next >= frames.len() {
        (false, m, t, next)
    } else {
        let e = PageEntry { frame: frames[next as int], flags };
        let (ok, m1, t1, next1) = map_page_s(frames, next + 1, m, t, page, e);
        if ok {
            map_pages_s(frames, next1, m1, t1, (page + 1) as u64, (n - 1) as nat, flags)
        } else {
            (false, m1, t1, next1)
        }
    }
}

/// In `m1` the `n` pages from `page` on, which `m` has not, have the frames with the
/// numbers `at`; the other pages are as in `m`.
pub open spec fn has_region(
    frames: Seq<u64>,
    at: Seq<int>,
    m: Map<u64, PageEntry>,
    page: u64,
    n: nat,
    flags: u64,
    m1: Map<u64, PageEntry>,
) -> bool {
    &&& at.len() == n
    &&& forall|p: u64| page <= p < page + n ==> !#[trigger] m.contains_key(p)
    &&& forall|p: u64| page <= p < page + n ==> #[trigger] m1.contains_key(p)
    &&& forall|p: u64|
        page <= p < page + n ==> #[trigger] m1[p] == (PageEntry {
            frame: frames[at[p - page]],
            flags,
        })
    &&& forall|p: u64|
        !(page <= p < page + n) ==> #[trigger] m1.contains_key(p) == m.contains_key(p)
    &&& forall|p: u64| !(page <= p < page + n) ==> #[trigger] m1[p] == m[p]
}

/// Numbers of frames that were handed out from one state to another, each one later
/// than the one before.
pub open spec fn taken_in_turn(at: Seq<int>, next: nat, next1: nat) -> bool {
    &&& forall|j: int| 0 <= j < at.len() ==> next <= #[trigger] at[j] < next1
    &&& forall|j: int, k: int| 0 <= j < k < at.len() ==> #[trigger] at[j] < #[trigger] at[k]
}

/// A region that was mapped gets fresh frames, page by page, and nothing else changes.
pub proof fn law_region_gets_fresh_frames(
    frames: Seq<u64>,
    next: nat,
    m: Map<u64, PageEntry>,
    t: Tables,
    page: u64,
    n: nat,
    flags: u64,
) -> (at: Seq<int>)
    requires
        page + n <= u64::MAX,
        next <= frames.len(),
        map_pages_s(frames, next, m, t, page, n, flags).0,
    ensures
        ({
            let (ok, m1, t1, next1) = map_pages_s(frames, next, m, t, page, n, flags);
            &&& next1 <= frames.len()
            &&& taken_in_turn(at, next, next1)
            &&& has_region(frames, at, m, page, n, flags, m1)
        }),
    decreases n,
{
    if n == 0 {
        Seq::empty()
    } else {
        let e = PageEntry { frame: frames[next as int], flags };
        let (ok, grown, tg, nextg) = map_page_s(frames, next + 1, m, t, page, e);
        lemma_tables(frames, next + 1, t, page, 0);
        let up = (page + 1) as u64;
        let rest = (n - 1) as nat;
        let later = law_region_gets_fresh_frames(frames, nextg, grown, tg, up, rest, flags);
        let (_, m1, t1, next1) = map_pages_s(frames, nextg, grown, tg, up, rest, flags);
        let at = seq![next as int] + later;
        assert(m1[page] == grown[page]);
        assert forall|p: u64| page <= p < page + n implies !#[trigger] m.contains_key(p) by {
            if p != page {
                assert(!grown.contains_key(p));
            }
        }
        assert forall|p: u64| page <= p < page + n implies #[trigger] m1[p] == (PageEntry {
            frame: frames[at[p - page]],
            flags,
        }) by {
            if p != page {
                assert(at[p - page] == later[p - up]);
            }
        }
        assert(next1 >= nextg) by {
            lemma_map_pages_next(frames, nextg, grown, tg, up, rest, flags);
        }
        assert forall|j: int| 0 <= j < at.len() implies next <= #[trigger] at[j] < next1 by {
            if j > 0 {
                assert(at[j] == later[j - 1]);
            }
        }
        assert forall|j: int, k: int| 0 <= j < k < at.len() implies #[trigger] at[j]
            < #[trigger] at[k] by {
            assert(at[k] == later[k - 1]);
            if j > 0 {
                assert(at[j] == later[j - 1]);
            }
        }
        at
    }
}

/// Mapping pages only takes frames.
pub proof fn lemma_map_pages_next(
    frames: Seq<u64>,
    next: nat,
    m: Map<u64, PageEntry>,
    t: Tables,
    page: u64,
    n: nat,
    flags: u64,
)
    ensures
        map_pages_s(frames, next, m, t, page, n, flags).3 >= next,
    decreases n,
{
    if n > 0 && next < frames.len() {
        let e = PageEntry { frame: frames[next as int], flags };
        let (ok, m1, t1, next1) = map_page_s(frames, next + 1, m, t, page, e);
        lemma_tables(frames, next + 1, t, page, 0);
        lemma_map_pages_next(
            frames,
            next1,
            m1,
            t1,
            (page + 1) as u64,
            (n - 1) as nat,
            flags,
        );
    }
}

/// Unmapping `n` pages from `page` on. It stops at the first page that is not
/// mapped.
pub open spec fn unmap_pages_s(m: Map<u64, PageEntry>, page: u64, n: nat) -> (
    bool,
    Map<u64, PageEntry>,
)
    decreases n,
{
    if n == 0 {
        (true, m)
    } else if !m.contains_key(page) {
        (false, m)
    } else {
        unmap_pages_s(m.remove(page), (page + 1) as u64, (n - 1) as nat)
    }
}

/// A page that was copied for a writer: from which frame to which.
#[derive(Debug, Clone, Copy, PartialEq, Eq, Structural)]
pub struct FrameCopy {
    pub from: u64,
    pub to: u64,
}

/// Whether an entry is one that a write has to copy.
pub open spec fn is_cow(e: PageEntry) -> bool {
    &&& e.flags & PRESENT != 0
    &&& e.flags & USER_ACCESSIBLE != 0
    &&& e.flags & WRITABLE == 0
    &&& e.flags & COW_FLAG != 0
    &&& e.flags & HUGE_PAGE == 0
}

/// The entry of a page after it was copied to a frame of its own.
pub open spec fn private_entry(e: PageEntry, frame: u64) -> PageEntry {
    PageEntry { frame, flags: (e.flags | WRITABLE) & !COW_FLAG }
}

/// Serving a write to a page that is shared until it is written to.
pub open spec fn resolve_cow_s(m: MemoryView, cr3: u64, vaddr: u64) -> (
    Option<FrameCopy>,
    MemoryView,
) {
    let page = page_of(vaddr);
    if !m.spaces.contains_key(cr3) || !m.spaces[cr3].contains_key(page) || !is_cow(
        m.spaces[cr3][page],
    ) {
        (None, m)
    } else {
        let e = m.spaces[cr3][page];
        match next_frame(m) {
            None => (None, m),
            Some(f) => (
                Some(FrameCopy { from: e.frame, to: f }),
                MemoryView {
                    spaces: m.spaces.insert(cr3, m.spaces[cr3].insert(page, private_entry(e, f))),
                    next: m.next + 1,
                    ..m
                },
            ),
        }
    }
}

impl MemoryManager {
    pub closed spec fn view(&self) -> MemoryView {
        MemoryView {
            regions: self.frame_allocator.regions(),
            next: self.frame_allocator.next(),
            kernel: self.kernel@,
            kernel_tables: self.kernel.tables(),
            spaces: self.spaces@.map_values(|s: AddressSpace| s@),
            space_tables: self.spaces@.map_values(|s: AddressSpace| s.tables()),
            roots: self.user_page_tables@,
            offset: self.physical_memory_offset,
        }
    }

    pub closed spec fn wf(&self) -> bool {
        self.frame_allocator.wf()
    }

    /// Takes over the memory map and the mappings that the kernel started with.
    pub fn install_global(
        kernel: AddressSpace,
        frame_allocator: BootInfoFrameAllocator,
        physical_memory_offset: u64,
    ) -> (r: MemoryManager)
        requires
            frame_allocator.wf(),
        ensures
            r.wf(),
            r@ == (MemoryView {
                regions: frame_allocator.regions(),
                next: frame_allocator.next(),
                kernel: kernel@,
                kernel_tables: kernel.tables(),
                spaces: Map::empty(),
                space_tables: Map::empty(),
                roots: Seq::empty(),
                offset: physical_memory_offset,
            }),
    {
        let r = MemoryManager {
            frame_allocator,
            kernel,
            spaces: BTreeMap::new(),
            user_page_tables: Vec::new(),
            physical_memory_offset,
        };
        assert(r@.spaces =~= Map::empty());
        assert(r@.space_tables =~= Map::empty());
        r
    }

    /// Hands out a frame.
    pub fn allocate_frame(&mut self) -> (r: Option<u64>)
        requires
            old(self).wf(),
        ensures
            final(self).wf(),
            r == next_frame(old(self)@),
            final(self)@ == frame_taken(old(self)@),
    {
        let r = self.frame_allocator.allocate_frame();
        assert(self@.spaces =~= old(self)@.spaces);
        assert(self@.space_tables =~= old(self)@.space_tables);
        r
    }

    /// How a page of the kernel is mapped.
    pub fn kernel_entry(&self, page: u64) -> (r: Option<PageEntry>)
        ensures
            r == (if self@.kernel.contains_key(page) {
                Some(self@.kernel[page])
            } else {
                None
            }),
    {
        self.kernel.entry(page)
    }

    /// How a page of a task is mapped.
    pub fn user_entry(&self, cr3: u64, page: u64) -> (r: Option<PageEntry>)
        ensures
            r == (if self@.spaces.contains_key(cr3) && self@.spaces[cr3].contains_key(page) {
                Some(self@.spaces[cr3][page])
            } else {
                None
            }),
    {
        match self.spaces.get(&cr3) {
            None => None,
            Some(s) => {
                assert(s@ == self@.spaces[cr3]);
                s.entry(page)
            },
        }
    }

    /// The pages that a task maps, in increasing order.
    pub fn user_pages(&self, cr3: u64) -> (r: Vec<u64>)
        ensures
            if self@.spaces.contains_key(cr3) {
                sorted_keys(r@, self@.spaces[cr3].dom())
            } else {
                r@.len() == 0
            },
    {
        match self.spaces.get(&cr3) {
            None => Vec::new(),
            Some(s) => {
                assert(s@ == self@.spaces[cr3]);
                s.pages()
            },
        }
    }

    /// The numbers of the tables of a task, in increasing order.
    pub fn user_table_keys(&self, cr3: u64) -> (r: Vec<u64>)
        ensures
            if self@.space_tables.contains_key(cr3) {
                sorted_keys(r@, self@.space_tables[cr3].dom())
            } else {
                r@.len() == 0
            },
    {
        match self.spaces.get(&cr3) {
            None => Vec::new(),
            Some(s) => {
                assert(s.tables() == self@.space_tables[cr3]);
                s.table_keys()
            },
        }
    }

    /// A table of a task, by its number.
    pub fn user_table(&self, cr3: u64, key: u64) -> (r: Option<TableEntry>)
        ensures
            r == (if self@.space_tables.contains_key(cr3)
                && self@.space_tables[cr3].contains_key(key) {
                Some(self@.space_tables[cr3][key])
            } else {
                None
            }),
    {
        match self.spaces.get(&cr3) {
            None => None,
            Some(s) => {
                assert(s.tables() == self@.space_tables[cr3]);
                s.table(key)
            },
        }
    }

    /// A table of the kernel, by its number.
    pub fn kernel_table(&self, key: u64) -> (r: Option<TableEntry>)
        ensures
            r == (if self@.kernel_tables.contains_key(key) {
                Some(self@.kernel_tables[key])
            } else {
                None
            }),
    {
        self.kernel.table(key)
    }

    /// Maps a page of the kernel, unless it is mapped already.
    pub fn map_kernel_page(&mut self, page: u64, entry: PageEntry) -> (r: bool)
        requires
            old(self).wf(),
            page < 0x10_0000_0000,
        ensures
            final(self).wf(),
            ({
                let (ok, m, t, next) = map_page_s(
                    usable_frames(old(self)@.regions),
                    old(self)@.next,
                    old(self)@.kernel,
                    old(self)@.kernel_tables,
                    page,
                    entry,
                );
                &&& r == ok
                &&& final(self)@ == (MemoryView { kernel: m, kernel_tables: t, next, ..old(self)@ })
            }),
    {
        let r = self.kernel.map_to(&mut self.frame_allocator, page, entry);
        assert(self@.spaces =~= old(self)@.spaces);
        assert(self@.space_tables =~= old(self)@.space_tables);
        r
    }

    /// Maps a page of an address space that is not kept yet.
    pub(crate) fn map_into(&mut self, space: &mut AddressSpace, page: u64, entry: PageEntry) -> (r:
        bool)
        requires
            old(self).wf(),
            page < 0x10_0000_0000,
        ensures
            final(self).wf(),
            final(self)@ == (MemoryView { next: final(self)@.next, ..old(self)@ }),
            (r, final(space)@, final(space).tables(), final(self)@.next) == map_page_s(
                usable_frames(old(self)@.regions),
                old(self)@.next,
                old(space)@,
                old(space).tables(),
                page,
                entry,
            ),
    {
        let r = space.map_to(&mut self.frame_allocator, page, entry);
        assert(self@.spaces =~= old(self)@.spaces);
        assert(self@.space_tables =~= old(self)@.space_tables);
        r
    }

    /// The kernel address of a physical address.
    pub fn phys_to_virt(&self, phys: u64) -> (r: u64)
        requires
            self@.offset + phys <= u64::MAX,
        ensures
            r == self@.offset + phys,
    {
        self.physical_memory_offset + phys
    }

    /// A fresh address space with the kernel's mappings and nothing else, and a
    /// frame for its root table. None if frames ran out.
    pub fn create_user_mapper(&mut self) -> (r: Option<(u64, AddressSpace)>)
        requires
            old(self).wf(),
        ensures
            final(self).wf(),
            final(self)@ == new_space_s(old(self)@).1,
            match r {
                Some((cr3, space)) => new_space_s(old(self)@).0 == Some((cr3, space.tables()))
                    && space@ == old(self)@.kernel,
                None => new_space_s(old(self)@).0 is None,
            },
    {
        let cr3: u64 = match self.allocate_frame() {
            None => return None,
            Some(f) => f,
        };
        let ghost m = self@;
        let mut space = self.kernel.duplicate();
        if copy_tables(&mut self.frame_allocator, &mut space) {
            assert(self@.spaces =~= m.spaces);
            assert(self@.space_tables =~= m.space_tables);
            Some((cr3, space))
        } else {
            assert(self@.spaces =~= m.spaces);
            assert(self@.space_tables =~= m.space_tables);
            None
        }
    }

    /// Keeps an address space under its root table.
    pub fn store_user_mapper(&mut self, cr3: u64, space: AddressSpace) -> (r: u64)
        requires
            old(self).wf(),
        ensures
            final(self).wf(),
            r == cr3,
            final(self)@ == (MemoryView {
                spaces: old(self)@.spaces.insert(cr3, space@),
                space_tables: old(self)@.space_tables.insert(cr3, space.tables()),
                roots: old(self)@.roots.push(cr3),
                ..old(self)@
            }),
    {
        self.user_page_tables.push(cr3);
        let ghost s = space;
        self.spaces.insert(cr3, space);
        assert(self@.spaces =~= old(self)@.spaces.insert(cr3, s@));
        assert(self@.space_tables =~= old(self)@.space_tables.insert(cr3, s.tables()));
        cr3
    }

    /// Maps `count` pages of the kernel from `start` on to fresh frames. Returns
    /// the address of the region, or None if frames ran out or a page was
    /// mapped already.
    pub fn map_region(&mut self, start: u64, count: u64, flags: u64) -> (r: Option<u64>)
        requires
            old(self).wf(),
            page_of(start) + count <= 0x10_0000_0000,
        ensures
            final(self).wf(),
            ({
                let (ok, m, t, next) = map_pages_s(
                    usable_frames(old(self)@.regions),
                    old(self)@.next,
                    old(self)@.kernel,
                    old(self)@.kernel_tables,
                    page_of(start),
                    count as nat,
                    flags,
                );
                &&& r == (if ok {
                    Some(start)
                } else {
                    None
                })
                &&& final(self)@ == (MemoryView { kernel: m, kernel_tables: t, next, ..old(self)@ })
            }),
    {
        let ok = map_pages(&mut self.frame_allocator, &mut self.kernel, start / 4096
            % 0x10_0000_0000, count, flags);
        assert(self@.spaces =~= old(self)@.spaces);
        assert(self@.space_tables =~= old(self)@.space_tables);
        if ok {
            Some(start)
        } else {
            None
        }
    }

    /// Maps `page_count` fresh frames into a user address space from `start` on.
    /// The frames are to be zeroed. Fails if frames ran out or a page was mapped
    /// already; the pages before that stay mapped.
    pub fn map_user_region(&mut self, user_cr3: u64, start: u64, page_count: u64, writable: bool)
        -> (r: Result<(), ()>)
        requires
            old(self).wf(),
            old(self)@.spaces.contains_key(user_cr3),
            page_of(start) + page_count <= 0x10_0000_0000,
        ensures
            final(self).wf(),
            ({
                let (ok, m, t, next) = map_pages_s(
                    usable_frames(old(self)@.regions),
                    old(self)@.next,
                    old(self)@.spaces[user_cr3],
                    old(self)@.space_tables[user_cr3],
                    page_of(start),
                    page_count as nat,
                    heap_flags(writable),
                );
                &&& r is Ok == ok
                &&& final(self)@ == (MemoryView {
                    spaces: old(self)@.spaces.insert(user_cr3, m),
                    space_tables: old(self)@.space_tables.insert(user_cr3, t),
                    next,
                    ..old(self)@
                })
            }),
    {
        let flags: u64 = if writable {
            PRESENT | USER_ACCESSIBLE | WRITABLE
        } else {
            PRESENT | USER_ACCESSIBLE
        };
        match self.spaces.remove(&user_cr3) {
            None => Err(()),
            Some(mut space) => {
                assert(space@ == old(self)@.spaces[user_cr3]);
                assert(space.tables() == old(self)@.space_tables[user_cr3]);
                let ok = map_pages(&mut self.frame_allocator, &mut space, start / 4096
                    % 0x10_0000_0000, page_count, flags);
                let ghost s = space;
                self.spaces.insert(user_cr3, space);
                assert(self@.spaces =~= old(self)@.spaces.insert(user_cr3, s@));
                assert(self@.space_tables =~= old(self)@.space_tables.insert(user_cr3, s.tables()));
                if ok {
                    Ok(())
                } else {
                    Err(())
                }
            },
        }
    }

    /// Unmaps `page_count` pages of a user address space from `start` on. Fails at
    /// the first page that is not mapped; the pages before it stay unmapped.
    pub fn unmap_user_region(&mut self, user_cr3: u64, start: u64, page_count: u64) -> (r: Result<
        (),
        (),
    >)
        requires
            old(self).wf(),
            old(self)@.spaces.contains_key(user_cr3),
            page_of(start) + page_count <= 0x10_0000_0000,
        ensures
            final(self).wf(),
            ({
                let (ok, m) = unmap_pages_s(
                    old(self)@.spaces[user_cr3],
                    page_of(start),
                    page_count as nat,
                );
                &&& r is Ok == ok
                &&& final(self)@ == (MemoryView {
                    spaces: old(self)@.spaces.insert(user_cr3, m),
                    ..old(self)@
                })
            }),
    {
        match self.spaces.remove(&user_cr3) {
            None => Err(()),
            Some(mut space) => {
                assert(space@ == old(self)@.spaces[user_cr3]);
                let ghost tables = space.tables();
                assert(tables == old(self)@.space_tables[user_cr3]);
                let ghost want = unmap_pages_s(space@, page_of(start), page_count as nat);
                let first: u64 = start / 4096 % 0x10_0000_0000;
                let mut i: u64 = 0;
                let mut ok = true;
                while ok && i < page_count
                    invariant
                        first + page_count <= 0x10_0000_0000,
                        i <= page_count,
                        space.tables() == tables,
                        ok ==> want == unmap_pages_s(
                            space@,
                            (first + i) as u64,
                            (page_count - i) as nat,
                        ),
                        !ok ==> want == (false, space@),
                    decreases (page_count - i) + (if ok {
                        1int
                    } else {
                        0int
                    }),
                {
                    let ghost before = space@;
                    if space.unmap(first + i) {
                        i = i + 1;
                    } else {
                        assert(space@ =~= before);
                        ok = false;
                    }
                }
                let ghost m = space@;
                self.spaces.insert(user_cr3, space);
                assert(self@.spaces =~= old(self)@.spaces.insert(user_cr3, m));
                assert(self@.space_tables =~= old(self)@.space_tables);
                if ok {
                    Ok(())
                } else {
                    Err(())
                }
            },
        }
    }

    /// Serves a write to a page that is shared until it is written to: the page
    /// gets a frame of its own, to which the old one is to be copied.
    pub fn resolve_cow_fault(&mut self, cr3: u64, vaddr: u64) -> (r: Option<FrameCopy>)
        requires
            old(self).wf(),
        ensures
            final(self).wf(),
            (r, final(self)@) == resolve_cow_s(old(self)@, cr3, vaddr),
    {
        let page: u64 = vaddr / 4096 % 0x10_0000_0000;
        let e: PageEntry = match self.spaces.get(&cr3) {
            None => return None,
            Some(space) => {
                assert(space@ == self@.spaces[cr3]);
                match space.entry(page) {
                    None => return None,
                    Some(e) => e,
                }
            },
        };
        if e.flags & PRESENT == 0 || e.flags & USER_ACCESSIBLE == 0 || e.flags & WRITABLE != 0
            || e.flags & COW_FLAG == 0 || e.flags & HUGE_PAGE != 0 {
            return None;
        }
        let frame: u64 = match self.allocate_frame() {
            None => return None,
            Some(f) => f,
        };
        let ghost before = self@;
        match self.spaces.remove(&cr3) {
            None => None,
            Some(mut space) => {
                assert(space@ == before.spaces[cr3]);
                space.remap(page, PageEntry { frame, flags: (e.flags | WRITABLE) & !COW_FLAG });
                let ghost m = space@;
                self.spaces.insert(cr3, space);
                assert(self@.spaces =~= before.spaces.insert(cr3, m));
                assert(self@.space_tables =~= before.space_tables);
                Some(FrameCopy { from: e.frame, to: frame })
            },
        }
    }
}

/// The flags of user heap memory.
pub open spec fn heap_flags(writable: bool) -> u64 {
    if writable {
        PRESENT | USER_ACCESSIBLE | WRITABLE
    } else {
        PRESENT | USER_ACCESSIBLE
    }
}

/// Maps pages to fresh frames.
pub(crate) fn map_pages(
    frames: &mut BootInfoFrameAllocator,
    space: &mut AddressSpace,
    page: u64,
    count: u64,
    flags: u64,
) -> (ok: bool)
    requires
        old(frames).wf(),
        page + count <= 0x10_0000_0000,
    ensures
        final(frames).wf(),
        final(frames).regions() == old(frames).regions(),
        (ok, final(space)@, final(space).tables(), final(frames).next()) == map_pages_s(
            usable_frames(old(frames).regions()),
            old(frames).next(),
            old(space)@,
            old(space).tables(),
            page,
            count as nat,
            flags,
        ),
{
    let ghost all = usable_frames(old(frames).regions());
    let ghost want = map_pages_s(
        all,
        old(frames).next(),
        old(space)@,
        old(space).tables(),
        page,
        count as nat,
        flags,
    );
    let mut i: u64 = 0;
    while i < count
        invariant
            frames.wf(),
            frames.regions() == old(frames).regions(),
            all == usable_frames(frames.regions()),
            page + count <= 0x10_0000_0000,
            i <= count,
            want == map_pages_s(
                all,
                old(frames).next(),
                old(space)@,
                old(space).tables(),
                page,
                count as nat,
                flags,
            ),
            want == map_pages_s(
                all,
                frames.next(),
                space@,
                space.tables(),
                (page + i) as u64,
                (count - i) as nat,
                flags,
            ),
        decreases count - i,
    {
        match frames.allocate_frame() {
            None => return false,
            Some(frame) => {
                if !space.map_to(frames, page + i, PageEntry { frame, flags }) {
                    return false;
                }
            },
        }
        i = i + 1;
    }
    true
}

/// Whether an address space has a table of its own: those that the first entry of the
/// root table leads to, under which user code lies. All others are the kernel's.
pub open spec fn own_table(key: u64, t: TableEntry) -> bool {
    key < 0x2000_0000 && !t.huge
}

/// Giving an address space tables of its own, in turn: whether the frames sufficed, the
/// tables, and how many frames were handed out.
pub open spec fn copy_tables_s(frames: Seq<u64>, next: nat, t: Tables, keys: Seq<u64>) -> (
    bool,
    Tables,
    nat,
)
    decreases keys.len(),
{
    if keys.len() == 0 {
        (true, t, next)
    } else if !own_table(keys[0], t[keys[0]]) {
        copy_tables_s(frames, next, t, keys.skip(1))
    } else if next >= frames.len() {
        (false, t, next)
    } else {
        let own = TableEntry { frame: frames[next as int], huge: false };
        copy_tables_s(frames, next + 1, t.insert(keys[0], own), keys.skip(1))
    }
}

/// Making an address space: its root table and its other tables, and the state after.
pub open spec fn new_space_s(m: MemoryView) -> (Option<(u64, Tables)>, MemoryView) {
    match next_frame(m) {
        None => (None, m),
        Some(cr3) => {
            let (ok, t, next) = copy_tables_s(
                usable_frames(m.regions),
                m.next + 1,
                m.kernel_tables,
                in_order(m.kernel_tables.dom()),
            );
            (
                if ok {
                    Some((cr3, t))
                } else {
                    None
                },
                MemoryView { next, ..m },
            )
        },
    }
}

/// Gives an address space tables of its own.
fn copy_tables(frames: &mut BootInfoFrameAllocator, space: &mut AddressSpace) -> (ok: bool)
    requires
        old(frames).wf(),
    ensures
        final(frames).wf(),
        final(frames).regions() == old(frames).regions(),
        final(space)@ == old(space)@,
        (ok, final(space).tables(), final(frames).next()) == copy_tables_s(
            usable_frames(old(frames).regions()),
            old(frames).next(),
            old(space).tables(),
            in_order(old(space).tables().dom()),
        ),
{
    let keys = space.table_keys();
    let ghost all = usable_frames(old(frames).regions());
    let ghost dom = space.tables().dom();
    proof {
        lemma_in_order(keys@, dom);
    }
    let ghost want = copy_tables_s(all, old(frames).next(), old(space).tables(), keys@);
    let mut i: usize = 0;
    assert(keys@.skip(0) =~= keys@);
    while i < keys.len()
        invariant
            frames.wf(),
            frames.regions() == old(frames).regions(),
            all == usable_frames(frames.regions()),
            sorted_keys(keys@, dom),
            keys@ == in_order(old(space).tables().dom()),
            space.tables().dom() == dom,
            space@ == old(space)@,
            i <= keys@.len(),
            want == copy_tables_s(all, old(frames).next(), old(space).tables(), keys@),
            want == copy_tables_s(all, frames.next(), space.tables(), keys@.skip(i as int)),
        decreases keys@.len() - i,
    {
        assert(keys@.skip(i as int).skip(1) =~= keys@.skip(i + 1));
        let key: u64 = keys[i];
        assert(dom.contains(keys@[i as int]));
        if let Some(t) = space.table(key) {
            if key < 0x2000_0000 && !t.huge {
                match frames.allocate_frame() {
                    None => return false,
                    Some(frame) => {
                        space.tables.insert(key, TableEntry { frame, huge: false });
                        assert(space.tables().dom() =~= dom);
                    },
                }
            }
        }
        i = i + 1;
    }
    true
}

/// Giving a child its own copy of the user pages among `keys`, in turn: whether
/// the frames sufficed, what the child maps, its tables, how many frames were handed
/// out, and what is to be copied. A page that cannot be mapped is passed over.
pub open spec fn copy_pages_s(
    frames: Seq<u64>,
    next: nat,
    child: Map<u64, PageEntry>,
    t: Tables,
    parent: Map<u64, PageEntry>,
    keys: Seq<u64>,
    copies: Seq<FrameCopy>,
) -> (bool, Map<u64, PageEntry>, Tables, nat, Seq<FrameCopy>)
    decreases keys.len(),
{
    if keys.len() == 0 {
        (true, child, t, next, copies)
    } else {
        let p = keys[0];
        let e = parent[p];
        if !user_page(p, e) {
            copy_pages_s(frames, next, child, t, parent, keys.skip(1), copies)
        } else if next >= frames.len() {
            (false, child, t, next, copies)
        } else {
            let f = frames[next as int];
            let own = PageEntry { frame: f, flags: e.flags };
            let (_, child1, t1, next1) = map_page_s(frames, next + 1, child, t, p, own);
            copy_pages_s(
                frames,
                next1,
                child1,
                t1,
                parent,
                keys.skip(1),
                copies.push(FrameCopy { from: e.frame, to: f }),
            )
        }
    }
}

/// Copies the user pages of one address space into another.
fn copy_pages(
    frames: &mut BootInfoFrameAllocator,
    child: &mut AddressSpace,
    parent: &AddressSpace,
    keys: &Vec<u64>,
) -> (r: (bool, Vec<FrameCopy>))
    requires
        old(frames).wf(),
        sorted_keys(keys@, parent@.dom()),
    ensures
        final(frames).wf(),
        final(frames).regions() == old(frames).regions(),
        (r.0, final(child)@, final(child).tables(), final(frames).next(), r.1@) == copy_pages_s(
            usable_frames(old(frames).regions()),
            old(frames).next(),
            old(child)@,
            old(child).tables(),
            parent@,
            keys@,
            Seq::empty(),
        ),
{
    let ghost all = usable_frames(old(frames).regions());
    let ghost want = copy_pages_s(
        all,
        old(frames).next(),
        old(child)@,
        old(child).tables(),
        parent@,
        keys@,
        Seq::empty(),
    );
    let mut copies: Vec<FrameCopy> = Vec::new();
    let mut i: usize = 0;
    assert(keys@.skip(0) =~= keys@);
    while i < keys.len()
        invariant
            frames.wf(),
            frames.regions() == old(frames).regions(),
            all == usable_frames(frames.regions()),
            sorted_keys(keys@, parent@.dom()),
            i <= keys@.len(),
            want == copy_pages_s(
                all,
                old(frames).next(),
                old(child)@,
                old(child).tables(),
                parent@,
                keys@,
                Seq::empty(),
            ),
            want == copy_pages_s(
                all,
                frames.next(),
                child@,
                child.tables(),
                parent@,
                keys@.skip(i as int),
                copies@,
            ),
        decreases keys@.len() - i,
    {
        assert(keys@.skip(i as int).skip(1) =~= keys@.skip(i + 1));
        let page: u64 = keys[i];
        assert(parent@.dom().contains(keys@[i as int]));
        if let Some(e) = parent.entry(page) {
            if page < USER_PAGES && e.flags & USER_ACCESSIBLE != 0 {
                match frames.allocate_frame() {
                    None => return (false, copies),
                    Some(frame) => {
                        copies.push(FrameCopy { from: e.frame, to: frame });
                        child.map_to(frames, page, PageEntry { frame, flags: e.flags });
                    },
                }
            }
        }
        i = i + 1;
    }
    (true, copies)
}

/// Makes the user pages of an address space shared, and lists them with their
/// new entries in increasing order.
fn share_pages(space: &mut AddressSpace) -> (r: Vec<(u64, PageEntry)>)
    ensures
        final(space)@ == shared_space(old(space)@),
        final(space).tables() == old(space).tables(),
        leaves_of(r@, shared_space(old(space)@)),
{
    let keys = space.pages();
    let ghost m = space@;
    let mut leaves: Vec<(u64, PageEntry)> = Vec::new();
    let mut i: usize = 0;
    while i < keys.len()
        invariant
            i <= keys@.len(),
            sorted_keys(keys@, m.dom()),
            space@.dom() == m.dom(),
            space.tables() == old(space).tables(),
            forall|j: int|
                0 <= j < i ==> space@[#[trigger] keys@[j]] == shared_space(m)[keys@[j]],
            forall|j: int| i <= j < keys@.len() ==> space@[#[trigger] keys@[j]] == m[keys@[j]],
            forall|k: int|
                0 <= k < leaves@.len() ==> m.contains_key((#[trigger] leaves@[k]).0)
                    && leaves@[k].1 == shared_space(m)[leaves@[k].0] && user_page(
                    leaves@[k].0,
                    m[leaves@[k].0],
                ) && (i < keys@.len() ==> leaves@[k].0 < keys@[i as int]),
            forall|a: int, b: int|
                0 <= a < b < leaves@.len() ==> (#[trigger] leaves@[a]).0 < (
                #[trigger] leaves@[b]).0,
            forall|j: int|
                0 <= j < i && user_page(#[trigger] keys@[j], m[keys@[j]]) ==> exists|k: int|
                    0 <= k < leaves@.len() && (#[trigger] leaves@[k]).0 == keys@[j],
        decreases keys@.len() - i,
    {
        let page: u64 = keys[i];
        assert(m.dom().contains(keys@[i as int]));
        let ghost before = leaves@;
        if let Some(e) = space.entry(page) {
            if page < USER_PAGES && e.flags & USER_ACCESSIBLE != 0 {
                let shared = if e.flags & WRITABLE != 0 {
                    PageEntry { frame: e.frame, flags: (e.flags & !WRITABLE) | COW_FLAG }
                } else {
                    e
                };
                space.remap(page, shared);
                leaves.push((page, shared));
                assert(space@.dom() =~= m.dom());
                assert(leaves@[leaves@.len() - 1].0 == page);
            }
        }
        proof {
            assert forall|j: int|
                0 <= j <= i && user_page(#[trigger] keys@[j], m[keys@[j]]) implies exists|k: int|
                0 <= k < leaves@.len() && (#[trigger] leaves@[k]).0 == keys@[j] by {
                if j < i {
                    let k = choose|k: int|
                        0 <= k < before.len() && (#[trigger] before[k]).0 == keys@[j];
                    assert(leaves@[k].0 == keys@[j]);
                }
            }
        }
        i = i + 1;
    }
    proof {
        assert forall|p: u64| m.contains_key(p) implies space@[p] == shared_space(m)[p] by {
            assert(keys@.contains(p));
        }
        assert(space@ =~= shared_space(m));
        lemma_shared_is_user(m);
        assert forall|p: u64| #[trigger]
            shared_space(m).contains_key(p) && user_page(p, shared_space(m)[p]) implies exists|
            k: int,
        | 0 <= k < leaves@.len() && (#[trigger] leaves@[k]).0 == p by {
            assert(keys@.contains(p));
        }
    }
    leaves
}

/// Sharing a page does not change whose it is.
proof fn lemma_shared_is_user(m: Map<u64, PageEntry>)
    ensures
        forall|p: u64| #[trigger]
            m.contains_key(p) ==> user_page(p, shared_space(m)[p]) == user_page(p, m[p]),
{
    assert forall|p: u64| #[trigger] m.contains_key(p) implies user_page(p, shared_space(m)[p])
        == user_page(p, m[p]) by {
        let f = m[p].flags;
        assert(((f & !2u64) | 512u64) & 4u64 == f & 4u64) by (bit_vector);
    }
}

/// The user pages of an address space with their entries, in increasing order.
pub open spec fn leaves_of(leaves: Seq<(u64, PageEntry)>, m: Map<u64, PageEntry>) -> bool {
    &&& forall|a: int, b: int|
        0 <= a < b < leaves.len() ==> (#[trigger] leaves[a]).0 < (#[trigger] leaves[b]).0
    &&& forall|k: int|
        0 <= k < leaves.len() ==> m.contains_key((#[trigger] leaves[k]).0) && leaves[k].1
            == m[leaves[k].0] && user_page(leaves[k].0, leaves[k].1)
    &&& forall|p: u64|
        m.contains_key(p) && #[trigger] user_page(p, m[p]) ==> exists|k: int|
            0 <= k < leaves.len() && (#[trigger] leaves[k]).0 == p
}

/// The user pages of an address space with their entries, in increasing order.
pub open spec fn user_leaves(m: Map<u64, PageEntry>) -> Seq<(u64, PageEntry)> {
    in_order(user_dom(m)).map_values(|p: u64| (p, m[p]))
}

/// The user pages of an address space.
pub open spec fn user_dom(m: Map<u64, PageEntry>) -> Set<u64> {
    m.dom().filter(|p: u64| user_page(p, m[p]))
}

/// There is one such list.
proof fn lemma_user_leaves(leaves: Seq<(u64, PageEntry)>, m: Map<u64, PageEntry>)
    requires
        leaves_of(leaves, m),
    ensures
        leaves == user_leaves(m),
{
    let keys = leaves.map_values(|l: (u64, PageEntry)| l.0);
    let dom = user_dom(m);
    assert forall|i: int| 0 <= i < keys.len() implies dom.contains(#[trigger] keys[i]) by {
        assert(leaves[i].0 == keys[i]);
    }
    assert forall|k: u64| #[trigger] dom.contains(k) implies keys.contains(k) by {
        assert(user_page(k, m[k]));
        let i = choose|i: int| 0 <= i < leaves.len() && (#[trigger] leaves[i]).0 == k;
        assert(keys[i] == k);
    }
    lemma_in_order(keys, dom);
    assert(leaves =~= user_leaves(m));
}

/// Mapping pages with their entries, in turn; one that cannot be mapped is passed over.
pub open spec fn map_leaves_s(
    frames: Seq<u64>,
    next: nat,
    m: Map<u64, PageEntry>,
    t: Tables,
    leaves: Seq<(u64, PageEntry)>,
) -> (Map<u64, PageEntry>, Tables, nat)
    decreases leaves.len(),
{
    if leaves.len() == 0 {
        (m, t, next)
    } else {
        let (_, m1, t1, next1) = map_page_s(frames, next, m, t, leaves[0].0, leaves[0].1);
        map_leaves_s(frames, next1, m1, t1, leaves.skip(1))
    }
}

/// Maps pages with their entries.
fn map_leaves(
    frames: &mut BootInfoFrameAllocator,
    space: &mut AddressSpace,
    leaves: &Vec<(u64, PageEntry)>,
)
    requires
        old(frames).wf(),
        forall|k: int| 0 <= k < leaves@.len() ==> (#[trigger] leaves@[k]).0 < USER_PAGES,
    ensures
        final(frames).wf(),
        final(frames).regions() == old(frames).regions(),
        (final(space)@, final(space).tables(), final(frames).next()) == map_leaves_s(
            usable_frames(old(frames).regions()),
            old(frames).next(),
            old(space)@,
            old(space).tables(),
            leaves@,
        ),
{
    let ghost all = usable_frames(old(frames).regions());
    let ghost want = map_leaves_s(
        all,
        old(frames).next(),
        old(space)@,
        old(space).tables(),
        leaves@,
    );
    let mut i: usize = 0;
    assert(leaves@.skip(0) =~= leaves@);
    while i < leaves.len()
        invariant
            frames.wf(),
            frames.regions() == old(frames).regions(),
            all == usable_frames(frames.regions()),
            i <= leaves@.len(),
            forall|k: int| 0 <= k < leaves@.len() ==> (#[trigger] leaves@[k]).0 < USER_PAGES,
            want == map_leaves_s(
                all,
                old(frames).next(),
                old(space)@,
                old(space).tables(),
                leaves@,
            ),
            want == map_leaves_s(
                all,
                frames.next(),
                space@,
                space.tables(),
                leaves@.skip(i as int),
            ),
        decreases leaves@.len() - i,
    {
        assert(leaves@.skip(i as int).skip(1) =~= leaves@.skip(i + 1));
        let (page, e) = leaves[i];
        assert(leaves@[i as int].0 < USER_PAGES);
        space.map_to(frames, page, e);
        i = i + 1;
    }
}

/// Mapping pages in turn keeps what was mapped, adds nothing but what was to be mapped,
/// and passes a page over only for want of frames or at a large page.
proof fn lemma_map_leaves(
    frames: Seq<u64>,
    next: nat,
    m: Map<u64, PageEntry>,
    t: Tables,
    leaves: Seq<(u64, PageEntry)>,
)
    ensures
        ({
            let (m1, t1, next1) = map_leaves_s(frames, next, m, t, leaves);
            &&& next <= next1
            &&& forall|p: u64| #[trigger] m.contains_key(p) ==> m1.contains_key(p) && m1[p] == m[p]
            &&& forall|p: u64| #[trigger]
                m1.contains_key(p) && !m.contains_key(p) ==> exists|k: int|
                    0 <= k < leaves.len() && #[trigger] leaves[k] == (p, m1[p])
            &&& forall|k: int|
                0 <= k < leaves.len() ==> m1.contains_key((#[trigger] leaves[k]).0) || next1
                    >= frames.len() || huge_on_way(t, leaves[k].0)
        }),
    decreases leaves.len(),
{
    if leaves.len() > 0 {
        let (page, e) = leaves[0];
        let (ok, mm, tm, nm) = map_page_s(frames, next, m, t, page, e);
        let rest = leaves.skip(1);
        lemma_tables(frames, next, t, page, 0);
        lemma_map_leaves(frames, nm, mm, tm, rest);
        let (m1, t1, next1) = map_leaves_s(frames, next, m, t, leaves);
        assert forall|p: u64| #[trigger] m.contains_key(p) implies m1.contains_key(p) && m1[p]
            == m[p] by {
            assert(mm.contains_key(p));
        }
        assert forall|p: u64| #[trigger] m1.contains_key(p) && !m.contains_key(p) implies exists|
            k: int,
        | 0 <= k < leaves.len() && #[trigger] leaves[k] == (p, m1[p]) by {
            if mm.contains_key(p) {
                assert(leaves[0] == (p, m1[p]));
            } else {
                let k = choose|k: int| 0 <= k < rest.len() && #[trigger] rest[k] == (p, m1[p]);
                assert(leaves[k + 1] == (p, m1[p]));
            }
        }
        assert forall|k: int| 0 <= k < leaves.len() implies m1.contains_key(
            (#[trigger] leaves[k]).0,
        ) || next1 >= frames.len() || huge_on_way(t, leaves[k].0) by {
            if k == 0 {
                if mm.contains_key(page) {
                    assert(m1.contains_key(page));
                }
            } else {
                assert(rest[k - 1] == leaves[k]);
                if huge_on_way(tm, leaves[k].0) {
                    lemma_huge_stays(t, tm, leaves[k].0);
                }
            }
        }
    }
}

/// Where tables were only added, a large page was there before.
proof fn lemma_huge_stays(t: Tables, t1: Tables, page: u64)
    requires
        huge_on_way(t1, page),
        forall|k: u64| #[trigger] t1.contains_key(k) && t1[k].huge ==> t.contains_key(k)
            && t[k].huge,
    ensures
        huge_on_way(t, page),
{
    let l = choose|l: nat|
        l < 3 && t1.contains_key(#[trigger] table_key(page, l)) && t1[table_key(page, l)].huge;
    assert(t.contains_key(table_key(page, l)));
}

/// Giving an address space tables of its own adds no large page.
proof fn lemma_copy_tables(frames: Seq<u64>, next: nat, t: Tables, keys: Seq<u64>)
    ensures
        ({
            let (ok, t1, next1) = copy_tables_s(frames, next, t, keys);
            &&& next <= next1
            &&& forall|k: u64| #[trigger] t1.contains_key(k) && t1[k].huge ==> t.contains_key(k)
                && t[k].huge
        }),
    decreases keys.len(),
{
    if keys.len() > 0 {
        if !own_table(keys[0], t[keys[0]]) {
            lemma_copy_tables(frames, next, t, keys.skip(1));
        } else if next < frames.len() {
            let own = TableEntry { frame: frames[next as int], huge: false };
            lemma_copy_tables(frames, next + 1, t.insert(keys[0], own), keys.skip(1));
        }
    }
}

/// Forking an address space: the root table of the child, and the state after.
pub open spec fn cow_fork_s(m: MemoryView, parent: u64) -> (Option<u64>, MemoryView) {
    let shared = shared_space(m.spaces[parent]);
    let (root, m1) = new_space_s(MemoryView { spaces: m.spaces.insert(parent, shared), ..m });
    match root {
        None => (None, m1),
        Some((cr3, t)) => {
            let (child, t1, next) = map_leaves_s(
                usable_frames(m.regions),
                m1.next,
                m.kernel,
                t,
                user_leaves(shared),
            );
            (
                Some(cr3),
                MemoryView {
                    spaces: m1.spaces.insert(cr3, child),
                    space_tables: m1.space_tables.insert(cr3, t1),
                    roots: m1.roots.push(cr3),
                    next,
                    ..m1
                },
            )
        },
    }
}

/// No two usable regions overlap, and all begin at a page.
pub open spec fn regions_apart(regions: Seq<MemoryRegion>) -> bool {
    &&& forall|a: int|
        0 <= a < regions.len() && (#[trigger] regions[a]).usable ==> regions[a].start % 4096 == 0
    &&& forall|a: int, b: int|
        0 <= a < b < regions.len() && (#[trigger] regions[a]).usable && (
        #[trigger] regions[b]).usable ==> regions[a].end <= regions[b].start || regions[b].end
            <= regions[a].start
}

/// A frame was handed out.
pub open spec fn handed_out(m: MemoryView, frame: u64) -> bool {
    exists|i: int|
        0 <= i < m.next && i < usable_frames(m.regions).len() && #[trigger] usable_frames(
            m.regions,
        )[i] == frame
}

/// Every address space has for its root table a frame that was handed out.
pub open spec fn roots_ok(m: MemoryView) -> bool {
    forall|cr3: u64| #[trigger] m.spaces.contains_key(cr3) ==> handed_out(m, cr3)
}

/// Handing out frames and changing what address spaces map leaves their root tables in
/// order.
pub proof fn law_roots_stay_in_order(m: MemoryView, m1: MemoryView)
    requires
        roots_ok(m),
        m1.regions == m.regions,
        m.next <= m1.next,
        forall|cr3: u64| #[trigger] m1.spaces.contains_key(cr3) ==> m.spaces.contains_key(cr3),
    ensures
        roots_ok(m1),
{
    assert forall|cr3: u64| #[trigger] m1.spaces.contains_key(cr3) implies handed_out(m1, cr3) by {
        assert(handed_out(m, cr3));
    }
}

/// The frame that a new address space gets for its root table is that of no other.
pub proof fn law_new_root_is_fresh(m: MemoryView, m1: MemoryView, cr3: u64)
    requires
        regions_ok(m.regions),
        regions_apart(m.regions),
        roots_ok(m),
        next_frame(m) == Some(cr3),
        m1.regions == m.regions,
        m.next < m1.next,
        forall|c: u64| #[trigger]
            m1.spaces.contains_key(c) ==> c == cr3 || m.spaces.contains_key(c),
    ensures
        !m.spaces.contains_key(cr3),
        roots_ok(m1),
{
    let frames = usable_frames(m.regions);
    assert(frames[m.next as int] == cr3);
    if m.spaces.contains_key(cr3) {
        assert(handed_out(m, cr3));
        let i = choose|i: int| 0 <= i < m.next && i < frames.len() && #[trigger] frames[i] == cr3;
        law_frames_are_distinct(m.regions, i, m.next as int);
    }
    assert forall|c: u64| #[trigger] m1.spaces.contains_key(c) implies handed_out(m1, c) by {
        if c != cr3 {
            assert(handed_out(m, c));
        }
    }
}

/// A fork takes frames, the first of them for the child's root table.
proof fn lemma_fork_takes(m: MemoryView, parent: u64)
    ensures
        ({
            let (r, m1) = cow_fork_s(m, parent);
            &&& m1.regions == m.regions
            &&& m.next <= m1.next
            &&& r matches Some(cr3) ==> next_frame(m) == Some(cr3) && m.next < m1.next
        }),
{
    let shared = shared_space(m.spaces[parent]);
    let m0 = MemoryView { spaces: m.spaces.insert(parent, shared), ..m };
    assert(next_frame(m0) == next_frame(m));
    let frames = usable_frames(m.regions);
    let keys = in_order(m.kernel_tables.dom());
    lemma_copy_tables(frames, m.next + 1, m.kernel_tables, keys);
    let (root, m1) = new_space_s(m0);
    if let Some((cr3, t)) = root {
        lemma_map_leaves(frames, m1.next, m.kernel, t, user_leaves(shared));
    }
}

/// A fork keeps the parent and all other address spaces: the child has a root table of
/// its own.
pub proof fn law_fork_spares_the_others(m: MemoryView, parent: u64)
    requires
        regions_ok(m.regions),
        regions_apart(m.regions),
        roots_ok(m),
        m.spaces.contains_key(parent),
    ensures
        ({
            let (r, m1) = cow_fork_s(m, parent);
            &&& roots_ok(m1)
            &&& m1.spaces.contains_key(parent) && m1.spaces[parent] == shared_space(
                m.spaces[parent],
            )
            &&& r matches Some(cr3) ==> !m.spaces.contains_key(cr3)
            &&& forall|c: u64| #[trigger]
                m.spaces.contains_key(c) && c != parent ==> m1.spaces.contains_key(c)
                    && m1.spaces[c] == m.spaces[c]
        }),
{
    let (r, m1) = cow_fork_s(m, parent);
    lemma_fork_takes(m, parent);
    match r {
        Some(cr3) => law_new_root_is_fresh(m, m1, cr3),
        None => law_roots_stay_in_order(m, m1),
    }
}

impl MemoryManager {
    /// Creates a copy-on-write fork of a user address space. All user frames
    /// are shared: the parent's writable pages become read-only and marked, and
    /// the child maps the same frames with the same flags beside the kernel's
    /// own mappings. Returns the root table of the child and the shared pages
    /// with their entries, which are to be flushed; None if there were no frames
    /// for its tables. A page that cannot be mapped in the child, for want of frames
    /// for further tables, is passed over.
    pub fn cow_fork_address_space(&mut self, parent_cr3: u64) -> (r: Option<
        (u64, Vec<(u64, PageEntry)>),
    >)
        requires
            old(self).wf(),
            old(self)@.spaces.contains_key(parent_cr3),
        ensures
            final(self).wf(),
            final(self)@ == cow_fork_s(old(self)@, parent_cr3).1,
            match r {
                None => cow_fork_s(old(self)@, parent_cr3).0 is None,
                Some((cr3, leaves)) => {
                    &&& cow_fork_s(old(self)@, parent_cr3).0 == Some(cr3)
                    &&& leaves_of(leaves@, shared_space(old(self)@.spaces[parent_cr3]))
                },
            },
    {
        let mut parent: AddressSpace = match self.spaces.remove(&parent_cr3) {
            Some(s) => s,
            None => return None,
        };
        assert(parent@ == old(self)@.spaces[parent_cr3]);
        let leaves = share_pages(&mut parent);
        let ghost m = parent@;
        proof {
            assert(parent.tables() == old(self)@.space_tables[parent_cr3]);
            lemma_user_leaves(leaves@, m);
            assert forall|k: int| 0 <= k < leaves@.len() implies (#[trigger] leaves@[k]).0
                < USER_PAGES by {
                assert(user_page(leaves@[k].0, leaves@[k].1));
            }
        }
        self.spaces.insert(parent_cr3, parent);
        assert(self@.spaces =~= old(self)@.spaces.insert(parent_cr3, m));
        assert(self@.space_tables =~= old(self)@.space_tables);
        match self.create_user_mapper() {
            None => None,
            Some((cr3, mut child)) => {
                let ghost before = self@;
                map_leaves(&mut self.frame_allocator, &mut child, &leaves);
                assert(self@.spaces =~= before.spaces);
                assert(self@.space_tables =~= before.space_tables);
                let cr3: u64 = self.store_user_mapper(cr3, child);
                Some((cr3, leaves))
            },
        }
    }

    /// Duplicates a user address space: the child gets a fresh frame for every
    /// user page of the parent, with the same flags. Returns the root table of
    /// the child, and the frames that are to be copied; None if frames ran out,
    /// and then no address space is kept.
    pub fn duplicate_user_address_space(&mut self, parent_cr3: u64) -> (r: Option<
        (u64, Vec<FrameCopy>),
    >)
        requires
            old(self).wf(),
            old(self)@.spaces.contains_key(parent_cr3),
        ensures
            final(self).wf(),
            ({
                let (root, m0) = new_space_s(old(self)@);
                let (ok, m, t, next, copies) = copy_pages_s(
                    usable_frames(old(self)@.regions),
                    m0.next,
                    old(self)@.kernel,
                    root->Some_0.1,
                    old(self)@.spaces[parent_cr3],
                    in_order(old(self)@.spaces[parent_cr3].dom()),
                    Seq::empty(),
                );
                match r {
                    Some((cr3, list)) => {
                        &&& root is Some && root->Some_0.0 == cr3
                        &&& ok && list@ == copies
                        &&& final(self)@ == (MemoryView {
                            spaces: old(self)@.spaces.insert(cr3, m),
                            space_tables: old(self)@.space_tables.insert(cr3, t),
                            roots: old(self)@.roots.push(cr3),
                            next,
                            ..old(self)@
                        })
                    },
                    None => if root is None {
                        final(self)@ == m0
                    } else {
                        !ok && final(self)@ == (MemoryView { next, ..old(self)@ })
                    },
                }
            }),
    {
        let parent: AddressSpace = match self.spaces.get(&parent_cr3) {
            Some(s) => s.duplicate(),
            None => return None,
        };
        assert(parent@ == old(self)@.spaces[parent_cr3]);
        let keys = parent.pages();
        proof {
            lemma_in_order(keys@, parent@.dom());
        }
        match self.create_user_mapper() {
            None => None,
            Some((cr3, mut child)) => {
                let (ok, copies) = copy_pages(&mut self.frame_allocator, &mut child, &parent, &keys);
                assert(self@.spaces =~= old(self)@.spaces);
                assert(self@.space_tables =~= old(self)@.space_tables);
                if !ok {
                    return None;
                }
                let cr3: u64 = self.store_user_mapper(cr3, child);
                Some((cr3, copies))
            },
        }
    }
}

/// After a copy-on-write fork, no user page can be written to by either side
/// without a fault, and the child sees exactly the frames of its parent, except
/// where the kernel itself has a mapping. A page of the parent is missing in the child
/// only if frames ran out or the kernel has a large page there.
pub proof fn law_fork_shares_without_write(m: MemoryView, parent: u64, page: u64)
    requires
        cow_fork_s(m, parent).0 is Some,
        m.spaces[parent].contains_key(page),
        user_page(page, m.spaces[parent][page]),
        !m.kernel.contains_key(page),
    ensures
        ({
            let (r, m1) = cow_fork_s(m, parent);
            let old_entry = m.spaces[parent][page];
            let e = shared_space(m.spaces[parent])[page];
            let child = m1.spaces[r->Some_0];
            &&& child.contains_key(page) ==> child[page] == e
            &&& child.contains_key(page) || m1.next >= usable_frames(m.regions).len()
                || huge_on_way(m.kernel_tables, page)
            &&& e.frame == old_entry.frame
            &&& e.flags & WRITABLE == 0
            &&& old_entry.flags & WRITABLE != 0 ==> e.flags & COW_FLAG != 0
        }),
{
    let space = m.spaces[parent];
    let shared = shared_space(space);
    let frames = usable_frames(m.regions);
    let (root, m0) = new_space_s(MemoryView { spaces: m.spaces.insert(parent, shared), ..m });
    let (cr3, t) = root->Some_0;
    let leaves = user_leaves(shared);
    let (child, t1, next) = map_leaves_s(frames, m0.next, m.kernel, t, leaves);
    lemma_shared_is_user(space);
    lemma_map_leaves(frames, m0.next, m.kernel, t, leaves);
    lemma_copy_tables(frames, m.next + 1, m.kernel_tables, in_order(m.kernel_tables.dom()));
    lemma_has_order(user_dom(shared));
    let keys = in_order(user_dom(shared));
    assert(user_dom(shared).contains(page));
    let k = choose|k: int| 0 <= k < keys.len() && keys[k] == page;
    assert(leaves[k] == (page, shared[page]));
    if huge_on_way(t, page) {
        lemma_huge_stays(m.kernel_tables, t, page);
    }
    if child.contains_key(page) {
        let l = choose|l: int| 0 <= l < leaves.len() && #[trigger] leaves[l] == (page, child[page]);
        assert(leaves[l] == (keys[l], shared[keys[l]]));
    }
    let f = space[page].flags;
    assert(((f & !2u64) | 512u64) & 2u64 == 0) by (bit_vector);
    assert(((f & !2u64) | 512u64) & 512u64 != 0) by (bit_vector);
}

/// A write to a shared page gives the writer a frame of its own that it may
/// write to, and changes no other page and no other address space; the same
/// fault does not come again.
pub proof fn law_cow_write_is_private(
    m: MemoryView,
    cr3: u64,
    vaddr: u64,
    other: u64,
    page: u64,
)
    requires
        resolve_cow_s(m, cr3, vaddr).0 is Some,
    ensures
        ({
            let (r, m1) = resolve_cow_s(m, cr3, vaddr);
            let e = m1.spaces[cr3][page_of(vaddr)];
            &&& e.frame == r->Some_0.to
            &&& r->Some_0.from == m.spaces[cr3][page_of(vaddr)].frame
            &&& e.flags & WRITABLE != 0
            &&& e.flags & COW_FLAG == 0
            &&& resolve_cow_s(m1, cr3, vaddr).0 is None
            &&& other != cr3 ==> m1.spaces.contains_key(other) == m.spaces.contains_key(other)
                && m1.spaces[other] == m.spaces[other]
            &&& page != page_of(vaddr) ==> m1.spaces[cr3].contains_key(page)
                == m.spaces[cr3].contains_key(page) && m1.spaces[cr3][page] == m.spaces[cr3][page]
        }),
{
    let f = m.spaces[cr3][page_of(vaddr)].flags;
    assert(((f | 2u64) & !512u64) & 2u64 != 0) by (bit_vector);
    assert(((f | 2u64) & !512u64) & 512u64 == 0) by (bit_vector);
}

/// A frame that is handed out begins at a page, and its address has at most 52
/// bits.
pub proof fn lemma_next_frame(mm: MemoryManager)
    requires
        mm.wf(),
    ensures
        next_frame(mm@) matches Some(f) ==> f % 4096 == 0 && f < 0x10_0000_0000_0000,
{
    let regions = mm@.regions;
    if next_frame(mm@) is Some {
        let m = lemma_frames_of_place(regions, regions.len(), mm@.next as int);
        assert(regions[m].end <= 0x10_0000_0000_0000);
    }
}

/// Every frame that is handed out begins in usable memory.
pub proof fn law_frames_are_usable_memory(regions: Seq<MemoryRegion>, i: int) -> (m: int)
    requires
        regions_ok(regions),
        0 <= i < usable_frames(regions).len(),
    ensures
        0 <= m < regions.len(),
        regions[m].usable,
        usable_frames(regions)[i] < regions[m].end,
        regions[m].start % 4096 == 0 ==> regions[m].start <= usable_frames(regions)[i],
{
    lemma_frames_of_place(regions, regions.len(), i)
}

/// Every page of usable memory is handed out in its turn, but for those that are kept for
/// devices: the eight megabytes from 4000000h on.
pub proof fn law_usable_memory_is_handed_out(regions: Seq<MemoryRegion>, m: int, f: u64)
    requires
        regions_ok(regions),
        0 <= m < regions.len(),
        regions[m].usable,
        regions[m].start % 4096 == 0,
        regions[m].start <= f < regions[m].end,
        f % 4096 == 0,
        f < 0x4000000 || f >= 0x4800000,
    ensures
        usable_frames(regions).contains(f),
{
    lemma_handed_out(regions, regions.len(), m, f);
}

proof fn lemma_handed_out(regions: Seq<MemoryRegion>, k: nat, m: int, f: u64)
    requires
        regions_ok(regions),
        0 <= m < k <= regions.len(),
        regions[m].usable,
        regions[m].start % 4096 == 0,
        regions[m].start <= f < regions[m].end,
        f % 4096 == 0,
        !in_dma_pool(f),
    ensures
        frames_of(regions, k).contains(f),
    decreases k,
{
    let before = frames_of(regions, (k - 1) as nat);
    let here = frames_in(regions[k - 1], frame_count(regions[k - 1]));
    if m < k - 1 {
        lemma_handed_out(regions, (k - 1) as nat, m, f);
        let i = before.index_of(f);
        assert((before + here)[i] == f);
    } else {
        lemma_in_region(regions[m], frame_count(regions[m]), f);
        let i = here.index_of(f);
        assert((before + here)[before.len() + i] == f);
    }
}

proof fn lemma_in_region(r: MemoryRegion, n: nat, f: u64)
    requires
        r.start % 4096 == 0,
        r.end <= 0x10_0000_0000_0000,
        n <= frame_count(r),
        r.start <= f < r.start + 4096 * n,
        f % 4096 == 0,
        !in_dma_pool(f),
    ensures
        frames_in(r, n).contains(f),
    decreases n,
{
    let before = frames_in(r, (n - 1) as nat);
    let addr = (r.start + 4096 * (n - 1)) as u64;
    if f == addr {
        assert(frames_in(r, n)[before.len() as int] == f);
    } else {
        lemma_in_region(r, (n - 1) as nat, f);
        let i = before.index_of(f);
        assert(frames_in(r, n)[i] == f);
    }
}

} // verus!
