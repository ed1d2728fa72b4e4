//! What drivers may reach, and where they find it.

use crate::capability::{Object, Rights, Slots};
use crate::driver::mmio::{
    covers_mmio, in_region, mmio_entry, mmio_mapped_s, mmio_page, mmio_pages_s, owns_mmio,
    page_base, pages_touched,
};
use crate::driver::pci::{device_s, scan_s, FunctionRegs, ScanView};
use crate::driver::portio::owns_port;
use crate::memory::{map_page_s, usable_frames, MemoryView};
use vstd::prelude::*;

verus! {

/// A task reaches ports exactly if one of its capabilities is for a range of ports that
/// holds every one of them, and lets it both read and write.
pub proof fn law_ports_are_covered_by_a_capability(slots: Slots, port: u16, width: u16)
    requires
        width > 0,
    ensures
        owns_port(slots, port, width) <==> exists|i: int|
            0 <= i < slots.len() && (#[trigger] slots[i] matches Some(cap) && cap.rights.has(2)
                && cap.rights.has(3) && (cap.object matches Object::Port { base, count } && forall|
                p: int,
            |
                #![trigger reached(p)]
                port <= p < port + width ==> reached(p) && base <= p < base + count)),
{
    lemma_read_write();
    if owns_port(slots, port, width) {
        let i = choose|i: int|
            0 <= i < slots.len() && (#[trigger] slots[i]) is Some && slots[i]->0.rights.includes(
                Rights(12),
            ) && crate::driver::portio::covers_port(slots[i]->0.object, port, width);
        let cap = slots[i]->0;
        assert(Rights(12).has(2) && Rights(12).has(3));
        assert(cap.rights.has(2) && cap.rights.has(3));
        assert(slots[i] is Some);
    }
    if exists|i: int|
        0 <= i < slots.len() && (#[trigger] slots[i] matches Some(cap) && cap.rights.has(2)
            && cap.rights.has(3) && (cap.object matches Object::Port { base, count } && forall|
            p: int,
        |
            #![trigger reached(p)]
            port <= p < port + width ==> reached(p) && base <= p < base + count)) {
        let i = choose|i: int|
            0 <= i < slots.len() && (#[trigger] slots[i] matches Some(cap) && cap.rights.has(2)
                && cap.rights.has(3) && (cap.object matches Object::Port { base, count } && forall|
                p: int,
            |
                #![trigger reached(p)]
                port <= p < port + width ==> reached(p) && base <= p < base + count));
        let cap = slots[i]->0;
        assert(reached(port as int) && reached(port + width - 1));
        assert(cap.rights.includes(Rights(12)));
        assert(owns_port(slots, port, width));
    }
}

/// A place that is spoken of.
pub open spec fn reached(p: int) -> bool {
    true
}

proof fn lemma_read_write()
    ensures
        forall|i: u32| i < 32 ==> (#[trigger] Rights(12).has(i) <==> i == 2 || i == 3),
{
    assert forall|i: u32| i < 32 implies (#[trigger] Rights(12).has(i) <==> i == 2 || i == 3) by {
        assert(i < 32 ==> (12u32 & (1u32 << i) != 0 <==> i == 2 || i == 3)) by (bit_vector);
    }
}

/// A task reaches registers only through a capability whose region holds every byte of
/// them and that carries each right it needs.
pub proof fn law_registers_are_covered_by_a_capability(
    slots: Slots,
    addr: u64,
    size: nat,
    needed: Rights,
    a: int,
    right: u32,
)
    requires
        owns_mmio(slots, addr, size, needed),
        addr <= a < addr + size,
    ensures
        exists|i: int|
            0 <= i < slots.len() && (#[trigger] slots[i] matches Some(cap) && (right < 32 && needed.has(
                right,
            ) ==> cap.rights.has(right)) && (cap.object matches Object::Mmio { phys_base, len }
                && phys_base <= a < phys_base + len)),
{
    let i = choose|i: int|
        0 <= i < slots.len() && (#[trigger] slots[i]) is Some && slots[i]->0.rights.includes(needed)
            && covers_mmio(slots[i]->0.object, addr, size);
    assert(slots[i] is Some);
}

/// Once registers are mapped, each byte of them is found in the kernel at the same
/// distance from FFFFFF8000000000h as it has from physical address zero: a page that was
/// not mapped before is the physical page, present, writable, and neither cached nor
/// written later. What was mapped before stays.
pub proof fn law_registers_are_found_uncached(m: MemoryView, phys: u64, size: nat, a: int)
    requires
        in_region(phys, size),
        mmio_mapped_s(m, phys, size).0,
        phys <= a < phys + size,
    ensures
        ({
            let m1 = mmio_mapped_s(m, phys, size).1;
            let page = ((0xFFFF_FF80_0000_0000 + a) / 4096 % 0x10_0000_0000) as u64;
            &&& m1.kernel.contains_key(page)
            &&& !m.kernel.contains_key(page) ==> m1.kernel[page].frame == a - a % 4096
                && m1.kernel[page].flags == 1 + 2 + 8 + 16
            &&& m.kernel.contains_key(page) ==> m1.kernel[page] == m.kernel[page]
        }),
{
    let base = page_base(phys);
    let n = pages_touched(phys, size);
    let j = ((a - base) / 4096) as nat;
    assert(base % 4096 == 0);
    assert(j < n);
    assert(base + 4096 * j == a - a % 4096);
    assert(base + 4096 * n <= 0x80_0000_0000);
    lemma_pages(m, base, 0, n, j);
    let page = ((0xFFFF_FF80_0000_0000 + a) / 4096 % 0x10_0000_0000) as u64;
    assert(mmio_page(base, j) == page);
    assert(1u64 | 2 | 16 | 8 == 27) by (bit_vector);
}

proof fn lemma_pages(m: MemoryView, phys: u64, i: nat, n: nat, j: nat)
    requires
        phys % 4096 == 0,
        phys + 4096 * n <= 0x80_0000_0000,
        mmio_pages_s(m, phys, i, n).0,
        i <= j < n,
    ensures
        ({
            let m1 = mmio_pages_s(m, phys, i, n).1;
            let page = mmio_page(phys, j);
            &&& m1.kernel.contains_key(page)
            &&& !m.kernel.contains_key(page) ==> m1.kernel[page] == mmio_entry(
                (phys + 4096 * j) as u64,
            )
            &&& m.kernel.contains_key(page) ==> m1.kernel[page] == m.kernel[page]
        }),
    decreases n - i,
{
    let here = mmio_page(phys, i);
    let page = mmio_page(phys, j);
    if m.kernel.contains_key(here) {
        if i == j {
            lemma_pages_keep(m, phys, i + 1, n, page);
        } else {
            lemma_pages(m, phys, i + 1, n, j);
        }
    } else {
        let (ok, kernel, kernel_tables, next) = map_page_s(
            usable_frames(m.regions),
            m.next,
            m.kernel,
            m.kernel_tables,
            here,
            mmio_entry((phys + 4096 * i) as u64),
        );
        let m1 = MemoryView { kernel, kernel_tables, next, ..m };
        if i == j {
            lemma_pages_keep(m1, phys, i + 1, n, page);
        } else {
            assert(here != page);
            lemma_pages(m1, phys, i + 1, n, j);
        }
    }
}

proof fn lemma_pages_keep(m: MemoryView, phys: u64, i: nat, n: nat, page: u64)
    requires
        m.kernel.contains_key(page),
    ensures
        mmio_pages_s(m, phys, i, n).1.kernel.contains_key(page),
        mmio_pages_s(m, phys, i, n).1.kernel[page] == m.kernel[page],
    decreases n - i,
{
    if i < n {
        if m.kernel.contains_key(mmio_page(phys, i)) {
            lemma_pages_keep(m, phys, i + 1, n, page);
        } else {
            let (ok, kernel, kernel_tables, next) = map_page_s(
                usable_frames(m.regions),
                m.next,
                m.kernel,
                m.kernel_tables,
                mmio_page(phys, i),
                mmio_entry((phys + 4096 * i) as u64),
            );
            if ok {
                lemma_pages_keep(
                    MemoryView { kernel, kernel_tables, next, ..m },
                    phys,
                    i + 1,
                    n,
                    page,
                );
            }
        }
    }
}

/// The scan of the bus looks at the eight functions of each device in turn. A function is
/// there unless its vendor reads FFFFh, and what is there is listed behind what was found
/// before. Only where the first function is there and its header does not say, in bit 23,
/// that there are more, the scan goes straight on to the next device.
pub proof fn law_scan_looks_at_every_function(v: ScanView, regs: FunctionRegs)
    requires
        v.device < 32,
        v.function < 8,
    ensures
        ({
            let v1 = scan_s(v, regs);
            let there = regs.id as int % 0x1_0000 != 0xFFFF;
            let alone = v.function == 0 && there && regs.header as int / 0x80_0000 % 2 == 0;
            &&& v1.function < 8
            &&& 8 * v1.device + v1.function == (if alone {
                8 * (v.device + 1)
            } else {
                8 * v.device + v.function + 1
            })
            &&& v1.devices == (if there {
                v.devices + seq![device_s(0, v.device, v.function, regs)]
            } else {
                v.devices
            })
        }),
{
    let h = regs.header;
    assert((h / 0x1_0000) & 0x80 != 0 <==> h / 0x80_0000 % 2 == 1) by (bit_vector);
    assert(v.devices.push(device_s(0, v.device, v.function, regs)) =~= v.devices + seq![
        device_s(0, v.device, v.function, regs),
    ]);
}

} // verus!
