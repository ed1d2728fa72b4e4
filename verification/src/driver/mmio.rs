//! Capability checks and mappings for memory-mapped device registers.

use crate::capability::{
    decides, find_object, lemma_first_match, slots_of, CapTables, Object, Rights, Slots,
};
use crate::memory::{
    map_page_s, page_of, usable_frames, MemoryManager, MemoryView, PageEntry, NO_CACHE, PRESENT,
    WRITABLE, WRITE_THROUGH,
};
use vstd::prelude::*;

verus! {

/// Base of the kernel's virtual region for device registers.
pub const MMIO_VIRT_BASE: u64 = 0xFFFF_FF80_0000_0000;

/// How deep the kernel is in input and output on its own authority.
#[derive(Debug, Clone, Copy, PartialEq, Eq, Structural)]
pub struct KernelIoDepth {
    pub depth: usize,
}

impl KernelIoDepth {
    /// Not on the kernel's authority.
    pub fn new() -> (r: KernelIoDepth)
        ensures
            r.depth == 0,
    {
        KernelIoDepth { depth: 0 }
    }

    /// Enters a scope in which the kernel acts on its own authority.
    pub fn enter(&mut self)
        requires
            old(self).depth < usize::MAX,
        ensures
            final(self).depth == old(self).depth + 1,
    {
        self.depth = self.depth + 1;
    }

    /// Leaves such a scope.
    pub fn leave(&mut self)
        requires
            old(self).depth > 0,
        ensures
            final(self).depth == old(self).depth - 1,
    {
        self.depth = self.depth - 1;
    }
}

/// Why a register cannot be accessed.
#[derive(Debug, Clone, Copy, PartialEq, Eq, Structural)]
pub enum AccessError {
    NotReadable,
    NotWritable,
    NotMapped,
}

impl AccessError {
    /// The error in words.
    pub open spec fn text_s(self) -> Seq<char> {
        match self {
            AccessError::NotReadable => "no MMIO read capability"@,
            AccessError::NotWritable => "no MMIO write capability"@,
            AccessError::NotMapped => "failed to map MMIO"@,
        }
    }

    /// The error in words.
    pub fn text(&self) -> (r: &'static str)
        ensures
            r@ == self.text_s(),
    {
        match *self {
            AccessError::NotReadable => "no MMIO read capability",
            AccessError::NotWritable => "no MMIO write capability",
            AccessError::NotMapped => "failed to map MMIO",
        }
    }
}

/// Whether an object is a register region that covers `[addr, addr + size)`.
pub open spec fn covers_mmio(o: Object, addr: u64, size: nat) -> bool {
    match o {
        Object::Mmio { phys_base, len } => phys_base <= addr && addr + size <= phys_base + len
            && addr + size <= u64::MAX,
        _ => false,
    }
}

/// Whether a task holds `needed` rights to `[addr, addr + size)`.
pub open spec fn owns_mmio(slots: Slots, addr: u64, size: nat, needed: Rights) -> bool {
    exists|i: int|
        0 <= i < slots.len() && (#[trigger] slots[i]) is Some && slots[i]->0.rights.includes(needed)
            && covers_mmio(slots[i]->0.object, addr, size)
}

/// Whether a task may access `[phys_addr, phys_addr + size)`. Anything goes on
/// the kernel's own authority.
pub fn check_mmio_cap(
    caps: &CapTables,
    io: KernelIoDepth,
    task_id: u64,
    phys_addr: u64,
    size: usize,
    needed: Rights,
) -> (r: bool)
    ensures
        r == (io.depth > 0 || owns_mmio(
            slots_of(caps@, task_id),
            phys_addr,
            size as nat,
            needed,
        )),
{
    if io.depth > 0 {
        return true;
    }
    let pred = |o: &Object| -> (b: bool)
        ensures
            b == covers_mmio(*o, phys_addr, size as nat),
        {
            match *o {
                Object::Mmio { phys_base, len } => {
                    if phys_addr < phys_base || size as u64 > u64::MAX - phys_addr {
                        false
                    } else {
                        let rel: u64 = phys_addr - phys_base;
                        size as u64 <= len && rel <= len - size as u64
                    }
                },
                _ => false,
            }
        };
    let found = find_object(caps, task_id, needed, pred);
    proof {
        let p = |o: Object| covers_mmio(o, phys_addr, size as nat);
        assert(decides(pred, p));
        lemma_first_match(slots_of(caps@, task_id), needed, p);
    }
    found.is_some()
}

/// The entry of a register page.
pub open spec fn mmio_entry(frame: u64) -> PageEntry {
    PageEntry { frame, flags: PRESENT | WRITABLE | NO_CACHE | WRITE_THROUGH }
}

/// The kernel's page for a register page.
pub open spec fn mmio_page(phys: u64, i: nat) -> u64 {
    page_of((MMIO_VIRT_BASE + (phys + 4096 * i) as u64) as u64)
}

/// Mapping the register pages from the `i`th to the `n`th behind physical address
/// `phys`, at the same offset in the kernel's region; pages that are mapped already
/// stay. It ends at the first that cannot be mapped.
pub open spec fn mmio_pages_s(m: MemoryView, phys: u64, i: nat, n: nat) -> (bool, MemoryView)
    decreases n - i,
{
    if i >= n {
        (true, m)
    } else if m.kernel.contains_key(mmio_page(phys, i)) {
        mmio_pages_s(m, phys, i + 1, n)
    } else {
        let (ok, kernel, kernel_tables, next) = map_page_s(
            usable_frames(m.regions),
            m.next,
            m.kernel,
            m.kernel_tables,
            mmio_page(phys, i),
            mmio_entry((phys + 4096 * i) as u64),
        );
        let m1 = MemoryView { kernel, kernel_tables, next, ..m };
        if ok {
            mmio_pages_s(m1, phys, i + 1, n)
        } else {
            (false, m1)
        }
    }
}

/// The physical page that holds an address.
pub open spec fn page_base(phys: u64) -> u64 {
    (phys - phys % 4096) as u64
}

/// How many pages an access touches.
pub open spec fn pages_touched(phys: u64, size: nat) -> nat {
    ((size + phys % 4096 + 4095) / 4096) as nat
}

/// Mapping `[phys, phys + size)`: whether that succeeds, and the state after.
pub open spec fn mmio_mapped_s(m: MemoryView, phys: u64, size: nat) -> (bool, MemoryView) {
    mmio_pages_s(m, page_base(phys), 0, pages_touched(phys, size))
}

/// Whether `[phys, phys + size)` has a place in the kernel's region, which ends where
/// the addresses end.
pub open spec fn in_region(phys: u64, size: nat) -> bool {
    phys < 0x80_0000_0000 && phys + size <= 0x80_0000_0000
}

/// Makes sure that `[phys, phys + size)` is mapped for the kernel, uncached, and
/// returns where. Mapping it again changes nothing. None if a page cannot be mapped.
pub fn ensure_mmio_mapped(mem: &mut MemoryManager, phys: u64, size: usize) -> (r: Option<u64>)
    requires
        old(mem).wf(),
        in_region(phys, size as nat),
    ensures
        final(mem).wf(),
        r == (if mmio_mapped_s(old(mem)@, phys, size as nat).0 {
            Some((MMIO_VIRT_BASE + phys) as u64)
        } else {
            None
        }),
        final(mem)@ == mmio_mapped_s(old(mem)@, phys, size as nat).1,
{
    let base: u64 = phys - phys % 4096;
    let pages: u64 = (size as u64 + phys % 4096 + 4095) / 4096;
    let mut i: u64 = 0;
    while i < pages
        invariant
            mem.wf(),
            base == page_base(phys),
            pages == pages_touched(phys, size as nat),
            in_region(phys, size as nat),
            i <= pages,
            mmio_pages_s(old(mem)@, base, 0, pages as nat) == mmio_pages_s(
                mem@,
                base,
                i as nat,
                pages as nat,
            ),
        decreases pages - i,
    {
        let frame: u64 = base + 4096 * i;
        let page: u64 = (MMIO_VIRT_BASE + frame) / 4096 % 0x10_0000_0000;
        assert(page == mmio_page(base, i as nat));
        if mem.kernel_entry(page).is_none() {
            let entry = PageEntry {
                frame,
                flags: PRESENT | WRITABLE | NO_CACHE | WRITE_THROUGH,
            };
            if !mem.map_kernel_page(page, entry) {
                return None;
            }
        }
        i = i + 1;
    }
    Some(MMIO_VIRT_BASE + phys)
}

/// Whether a task may make an access: on the kernel's authority or with a capability.
pub open spec fn may_access(
    caps: Map<u64, Slots>,
    io: KernelIoDepth,
    task_id: u64,
    phys: u64,
    width: nat,
    needed: Rights,
) -> bool {
    io.depth > 0 || owns_mmio(slots_of(caps, task_id), phys, width, needed)
}

/// How a register access is prepared: it fails with `denied` where it is not allowed,
/// and otherwise the register is mapped, if that can be done.
pub open spec fn accessed(
    allowed: bool,
    r: Result<u64, AccessError>,
    m: MemoryView,
    m1: MemoryView,
    phys: u64,
    width: nat,
    denied: AccessError,
) -> bool {
    if !allowed {
        r == Err::<u64, AccessError>(denied) && m1 == m
    } else {
        let (ok, mapped) = mmio_mapped_s(m, phys, width);
        &&& m1 == mapped
        &&& if ok {
            r == Ok::<u64, AccessError>((MMIO_VIRT_BASE + phys) as u64)
        } else {
            r == Err::<u64, AccessError>(AccessError::NotMapped)
        }
    }
}

/// Prepares a register access of `width` bytes: where it is to be made, if the
/// task may make it.
fn access(
    caps: &CapTables,
    io: KernelIoDepth,
    mem: &mut MemoryManager,
    task_id: u64,
    phys_addr: u64,
    width: usize,
    needed: Rights,
    denied: AccessError,
) -> (r: Result<u64, AccessError>)
    requires
        old(mem).wf(),
        may_access(caps@, io, task_id, phys_addr, width as nat, needed) ==> in_region(
            phys_addr,
            width as nat,
        ),
    ensures
        final(mem).wf(),
        ({
            let allowed = may_access(caps@, io, task_id, phys_addr, width as nat, needed);
            accessed(allowed, r, old(mem)@, final(mem)@, phys_addr, width as nat, denied)
        }),
{
    if !check_mmio_cap(caps, io, task_id, phys_addr, width, needed) {
        return Err(denied);
    }
    match ensure_mmio_mapped(mem, phys_addr, width) {
        Some(virt) => Ok(virt),
        None => Err(AccessError::NotMapped),
    }
}

/// Prepares reading `width` bytes of a register. Returns the kernel address to
/// read from. Requires a capability with the read right.
pub fn read_access(
    caps: &CapTables,
    io: KernelIoDepth,
    mem: &mut MemoryManager,
    task_id: u64,
    phys_addr: u64,
    width: usize,
) -> (r: Result<u64, AccessError>)
    requires
        old(mem).wf(),
        may_access(caps@, io, task_id, phys_addr, width as nat, Rights(Rights::READ)) ==> in_region(
            phys_addr,
            width as nat,
        ),
    ensures
        final(mem).wf(),
        ({
            let allowed = may_access(caps@, io, task_id, phys_addr, width as nat, Rights(Rights::READ));
            accessed(allowed, r, old(mem)@, final(mem)@, phys_addr, width as nat, AccessError::NotReadable)
        }),
{
    access(
        caps,
        io,
        mem,
        task_id,
        phys_addr,
        width,
        Rights(Rights::READ),
        AccessError::NotReadable,
    )
}

/// Prepares writing `width` bytes of a register. Returns the kernel address to
/// write to. Requires a capability with the write right.
pub fn write_access(
    caps: &CapTables,
    io: KernelIoDepth,
    mem: &mut MemoryManager,
    task_id: u64,
    phys_addr: u64,
    width: usize,
) -> (r: Result<u64, AccessError>)
    requires
        old(mem).wf(),
        may_access(caps@, io, task_id, phys_addr, width as nat, Rights(Rights::WRITE)) ==> in_region(
            phys_addr,
            width as nat,
        ),
    ensures
        final(mem).wf(),
        ({
            let allowed = may_access(caps@, io, task_id, phys_addr, width as nat, Rights(Rights::WRITE));
            accessed(allowed, r, old(mem)@, final(mem)@, phys_addr, width as nat, AccessError::NotWritable)
        }),
{
    access(
        caps,
        io,
        mem,
        task_id,
        phys_addr,
        width,
        Rights(Rights::WRITE),
        AccessError::NotWritable,
    )
}

/// Mapping a register region twice is mapping it once.
pub proof fn law_mapping_is_idempotent(m: MemoryView, phys: u64, size: nat)
    requires
        mmio_mapped_s(m, phys, size).0,
    ensures
        mmio_mapped_s(mmio_mapped_s(m, phys, size).1, phys, size) == mmio_mapped_s(m, phys, size),
{
    let n = pages_touched(phys, size);
    let m1 = mmio_mapped_s(m, phys, size).1;
    lemma_all_mapped(m, page_base(phys), 0, n);
    lemma_nothing_to_map(m1, page_base(phys), 0, n);
}

/// What was mapped stays so, and so are all register pages.
proof fn lemma_all_mapped(m: MemoryView, phys: u64, i: nat, n: nat)
    requires
        mmio_pages_s(m, phys, i, n).0,
    ensures
        forall|p: u64| #[trigger]
            m.kernel.contains_key(p) ==> mmio_pages_s(m, phys, i, n).1.kernel.contains_key(p),
        forall|k: nat|
            i <= k < n ==> mmio_pages_s(m, phys, i, n).1.kernel.contains_key(
                #[trigger] mmio_page(phys, k),
            ),
    decreases n - i,
{
    if i < n {
        let page = mmio_page(phys, i);
        let m1 = if m.kernel.contains_key(page) {
            m
        } else {
            let (ok, kernel, kernel_tables, next) = map_page_s(
                usable_frames(m.regions),
                m.next,
                m.kernel,
                m.kernel_tables,
                page,
                mmio_entry((phys + 4096 * i) as u64),
            );
            MemoryView { kernel, kernel_tables, next, ..m }
        };
        lemma_all_mapped(m1, phys, i + 1, n);
        assert(m1.kernel.contains_key(page));
        assert forall|p: u64| #[trigger] m.kernel.contains_key(p) implies mmio_pages_s(
            m,
            phys,
            i,
            n,
        ).1.kernel.contains_key(p) by {
            assert(m1.kernel.contains_key(p));
        }
    }
}

/// Where all register pages are mapped nothing changes.
proof fn lemma_nothing_to_map(m: MemoryView, phys: u64, i: nat, n: nat)
    requires
        forall|k: nat| i <= k < n ==> m.kernel.contains_key(#[trigger] mmio_page(phys, k)),
    ensures
        mmio_pages_s(m, phys, i, n) == (true, m),
    decreases n - i,
{
    if i < n {
        assert(m.kernel.contains_key(mmio_page(phys, i)));
        lemma_nothing_to_map(m, phys, i + 1, n);
    }
}

} // verus!
