//! What relocations are for: a program that was loaded points to where it was loaded.

use crate::bytes::get64;
use crate::elf::reloc::{
    apply_relocations_s, file_backed, file_offset, frames_ok, reloc_value, relocs_s, symbol_s,
    wrap_add,
};
use crate::elf::{ElfView, Segment};
use crate::memory::{canonical, page_of, PageEntry};
use vstd::prelude::*;

verus! {

/// A relocation: where, relative to the load base, of which kind, for which symbol, and
/// what is added.
pub struct Relocation {
    pub offset: u64,
    pub kind: int,
    pub symbol: int,
    pub addend: u64,
}

/// Entry `k` of a table of relocations.
pub open spec fn relocation(data: Seq<u8>, start: int, k: int) -> Relocation {
    let at = start + 24 * k;
    let info = get64(data, at + 8) as int;
    Relocation {
        offset: get64(data, at),
        kind: info % 0x1_0000_0000,
        symbol: info / 0x1_0000_0000,
        addend: get64(data, at + 16),
    }
}

/// A relocation that writes something: relative ones, those of a table entry for data or
/// code, and direct ones.
pub open spec fn writes(r: Relocation) -> bool {
    r.kind == 8 || r.kind == 6 || r.kind == 7 || r.kind == 1
}

/// How many of the entries from `i` up to `k` write something.
pub open spec fn count(data: Seq<u8>, start: int, i: int, k: int) -> nat
    decreases k - i,
{
    if i >= k {
        0
    } else if writes(relocation(data, start, i)) {
        1 + count(data, start, i + 1, k)
    } else {
        count(data, start, i + 1, k)
    }
}

/// The page of an address.
pub open spec fn page(addr: int) -> u64 {
    (addr / 4096 % 0x10_0000_0000) as u64
}

/// An address is one, and it is mapped.
pub open spec fn reached(m: Map<u64, PageEntry>, addr: int) -> bool {
    addr <= u64::MAX && canonical(addr as u64) && m.contains_key(page(addr))
}

/// A write is the one that a relocation asks for, of a binary at a base whose symbols
/// have the values `symbol`.
pub open spec fn written(
    m: Map<u64, PageEntry>,
    base: u64,
    r: Relocation,
    symbol: u64,
    w: (u64, u64),
) -> bool {
    let target = base + r.offset;
    &&& reached(m, target)
    &&& w.0 == m[page(target)].frame + target % 4096
    &&& r.kind == 8 ==> w.1 == (base + r.addend) % 0x1_0000_0000_0000_0000
    &&& r.kind == 6 || r.kind == 7 ==> w.1 == symbol
    &&& r.kind == 1 ==> w.1 == (symbol + r.addend) % 0x1_0000_0000_0000_0000
}

/// A sum of addresses modulo 2^64.
proof fn lemma_wrap(a: u64, b: u64)
    ensures
        wrap_add(a, b) == (a + b) % 0x1_0000_0000_0000_0000,
{
}

/// What a relocation writes, by its kind.
proof fn lemma_value(elf: ElfView, data: Seq<u8>, base: u64, kind: u32, symbol: u32, addend: u64)
    ensures
        ({
            let v = reloc_value(elf, data, base, kind, symbol, addend);
            let x = symbol_s(elf, data, symbol, base);
            &&& v is Some <==> kind == 8 || kind == 6 || kind == 7 || kind == 1
            &&& kind == 8 ==> v->Some_0 == (base + addend) % 0x1_0000_0000_0000_0000
            &&& kind == 6 || kind == 7 ==> v->Some_0 == x
            &&& kind == 1 ==> v->Some_0 == (x + addend) % 0x1_0000_0000_0000_0000
        }),
{
    lemma_wrap(base, addend);
    lemma_wrap(symbol_s(elf, data, symbol, base), addend);
}

/// How the writes go on behind entry `i`.
proof fn lemma_step(
    elf: ElfView,
    data: Seq<u8>,
    base: u64,
    m: Map<u64, PageEntry>,
    start: int,
    i: nat,
    n: nat,
    done: Seq<(u64, u64)>,
) -> (w: (u64, u64))
    requires
        frames_ok(m),
        i < n,
        start + 24 * i + 24 <= data.len(),
    ensures
        ({
            let r = relocation(data, start, i as int);
            let all = relocs_s(elf, data, base, m, start, i, n, done);
            if !writes(r) {
                all == relocs_s(elf, data, base, m, start, i + 1, n, done)
            } else if !reached(m, base + r.offset) {
                all is Err
            } else {
                &&& all == relocs_s(elf, data, base, m, start, i + 1, n, done.push(w))
                &&& written(m, base, r, symbol_s(elf, data, r.symbol as u32, base), w)
            }
        }),
{
    let at = start + 24 * i;
    let r = relocation(data, start, i as int);
    let info = get64(data, at + 8);
    let kind = (info % 0x1_0000_0000) as u32;
    let symbol = (info / 0x1_0000_0000) as u32;
    lemma_value(elf, data, base, kind, symbol, r.addend);
    let v = reloc_value(elf, data, base, kind, symbol, r.addend);
    let target = base + r.offset;
    if target <= u64::MAX {
        assert(page_of(target as u64) == page(target));
    }
    ((m[page(target)].frame + target % 4096) as u64, v->Some_0)
}

/// What was written before stays, and the write of entry `k` is where it belongs.
proof fn lemma_entry(
    elf: ElfView,
    data: Seq<u8>,
    base: u64,
    m: Map<u64, PageEntry>,
    start: int,
    i: nat,
    n: nat,
    done: Seq<(u64, u64)>,
    k: int,
)
    requires
        frames_ok(m),
        relocs_s(elf, data, base, m, start, i, n, done) is Ok,
    ensures
        ({
            let w = relocs_s(elf, data, base, m, start, i, n, done)->Ok_0;
            let r = relocation(data, start, k);
            let j = done.len() + count(data, start, i as int, k);
            &&& done.len() <= w.len()
            &&& forall|x: int| 0 <= x < done.len() ==> #[trigger] w[x] == done[x]
            &&& i <= k < n && start + 24 * k + 24 <= data.len() && writes(r) ==> {
                &&& j < w.len()
                &&& written(m, base, r, symbol_s(elf, data, r.symbol as u32, base), w[j as int])
            }
        }),
    decreases n - i,
{
    if i < n && start + 24 * i + 24 <= data.len() {
        let w0 = lemma_step(elf, data, base, m, start, i, n, done);
        if writes(relocation(data, start, i as int)) {
            let next = done.push(w0);
            lemma_entry(elf, data, base, m, start, i + 1, n, next, k);
            let w = relocs_s(elf, data, base, m, start, i, n, done)->Ok_0;
            assert(w[done.len() as int] == next[done.len() as int]);
            assert forall|x: int| 0 <= x < done.len() implies #[trigger] w[x] == done[x] by {
                assert(w[x] == next[x]);
            }
        } else {
            lemma_entry(elf, data, base, m, start, i + 1, n, done, k);
        }
    }
}

/// Which relocation could not be carried out.
proof fn lemma_failed(
    elf: ElfView,
    data: Seq<u8>,
    base: u64,
    m: Map<u64, PageEntry>,
    start: int,
    i: nat,
    n: nat,
    done: Seq<(u64, u64)>,
) -> (k: int)
    requires
        frames_ok(m),
        relocs_s(elf, data, base, m, start, i, n, done) is Err,
    ensures
        i <= k < n && start + 24 * k + 24 <= data.len(),
        writes(relocation(data, start, k)),
        !reached(m, base + relocation(data, start, k).offset),
    decreases n - i,
{
    let w0 = lemma_step(elf, data, base, m, start, i, n, done);
    let r = relocation(data, start, i as int);
    if !writes(r) {
        lemma_failed(elf, data, base, m, start, i + 1, n, done)
    } else if reached(m, base + r.offset) {
        lemma_failed(elf, data, base, m, start, i + 1, n, done.push(w0))
    } else {
        i as int
    }
}

/// The table of relocations of a binary is at `start` of its file.
pub open spec fn has_table(elf: ElfView, start: int) -> bool {
    &&& elf.is_dynamic
    &&& elf.dynamic_info.rela_addr matches Some(rela) && file_offset(elf.segments, rela) == Some(
        start,
    )
}

/// Entry `k` is one of the table, and the file has it.
pub open spec fn in_table(elf: ElfView, data: Seq<u8>, start: int, k: int) -> bool {
    0 <= k < elf.dynamic_info.rela_size / 24 && start + 24 * k + 24 <= data.len()
}

/// Every relocation of a program that can be loaded is carried out: its write goes to
/// the frame behind the load base plus its offset. A relative one writes the load base
/// plus its addend, a table entry its symbol, a direct one its symbol plus its addend;
/// sums are taken modulo 2^64. The writes come in the order of the table.
pub proof fn law_relocations_are_carried_out(
    elf: ElfView,
    data: Seq<u8>,
    base: u64,
    m: Map<u64, PageEntry>,
    start: int,
    k: int,
)
    requires
        frames_ok(m),
        has_table(elf, start),
        in_table(elf, data, start, k),
        writes(relocation(data, start, k)),
        apply_relocations_s(elf, data, base, m) is Ok,
    ensures
        ({
            let w = apply_relocations_s(elf, data, base, m)->Ok_0;
            let r = relocation(data, start, k);
            let j = count(data, start, 0, k) as int;
            &&& j < w.len()
            &&& written(m, base, r, symbol_s(elf, data, r.symbol as u32, base), w[j])
        }),
{
    let n = (elf.dynamic_info.rela_size / 24) as nat;
    lemma_entry(elf, data, base, m, start, 0, n, Seq::empty(), k);
}

proof fn lemma_difference(a: int, b: int, x: int)
    ensures
        ((a + x) % 0x1_0000_0000_0000_0000 - (b + x) % 0x1_0000_0000_0000_0000 - (a - b))
            % 0x1_0000_0000_0000_0000 == 0,
{
}

/// Where a program is loaded somewhere else, its relative addresses differ by as much as
/// the places do.
pub proof fn law_addresses_move_with_the_base(
    elf: ElfView,
    data: Seq<u8>,
    base: u64,
    m: Map<u64, PageEntry>,
    other: u64,
    m1: Map<u64, PageEntry>,
    start: int,
    k: int,
)
    requires
        frames_ok(m),
        frames_ok(m1),
        has_table(elf, start),
        in_table(elf, data, start, k),
        relocation(data, start, k).kind == 8,
        apply_relocations_s(elf, data, base, m) is Ok,
        apply_relocations_s(elf, data, other, m1) is Ok,
    ensures
        ({
            let w = apply_relocations_s(elf, data, base, m)->Ok_0;
            let w1 = apply_relocations_s(elf, data, other, m1)->Ok_0;
            let j = count(data, start, 0, k) as int;
            &&& j < w.len() && j < w1.len()
            &&& (w[j].1 - w1[j].1 - (base - other)) % 0x1_0000_0000_0000_0000 == 0
        }),
{
    law_relocations_are_carried_out(elf, data, base, m, start, k);
    law_relocations_are_carried_out(elf, data, other, m1, start, k);
    let x = relocation(data, start, k).addend as int;
    lemma_difference(base as int, other as int, x);
}

/// Relocating fails only where the target of a relocation is not mapped, and it does
/// fail there. What is not loaded dynamically is not relocated.
pub proof fn law_relocations_need_their_targets(
    elf: ElfView,
    data: Seq<u8>,
    base: u64,
    m: Map<u64, PageEntry>,
    start: int,
)
    requires
        frames_ok(m),
    ensures
        !elf.is_dynamic ==> apply_relocations_s(elf, data, base, m) == Ok::<
            Seq<(u64, u64)>,
            Seq<char>,
        >(Seq::empty()),
        has_table(elf, start) ==> (apply_relocations_s(elf, data, base, m) is Err <==> exists|k: int|
            in_table(elf, data, start, k) && #[trigger] writes(relocation(data, start, k))
                && !reached(m, base + relocation(data, start, k).offset)),
{
    if has_table(elf, start) {
        let n = (elf.dynamic_info.rela_size / 24) as nat;
        let all = relocs_s(elf, data, base, m, start, 0, n, Seq::empty());
        if all is Err {
            let k = lemma_failed(elf, data, base, m, start, 0, n, Seq::empty());
            assert(writes(relocation(data, start, k)));
        } else {
            assert forall|k: int|
                in_table(elf, data, start, k) && #[trigger] writes(
                    relocation(data, start, k),
                ) implies reached(m, base + relocation(data, start, k).offset) by {
                lemma_entry(elf, data, base, m, start, 0, n, Seq::empty(), k);
            }
        }
    }
}

/// A symbol that the file defines is where the program was loaded, plus its value;
/// others are nothing.
pub proof fn law_symbols_move_with_the_base(
    elf: ElfView,
    data: Seq<u8>,
    base: u64,
    index: u32,
    table: int,
)
    requires
        elf.dynamic_info.symtab_addr matches Some(a) && file_offset(elf.segments, a) == Some(table),
    ensures
        ({
            let value = get64(data, table + 24 * index + 8);
            let defined = index != 0 && table + 24 * index + 24 <= data.len() && value != 0;
            symbol_s(elf, data, index, base) == if defined {
                (base + value) % 0x1_0000_0000_0000_0000
            } else {
                0
            }
        }),
{
}

/// An address is found in the file where the first segment that holds it has it.
pub proof fn law_addresses_are_found_in_the_file(segments: Seq<Segment>, addr: u64, i: int)
    requires
        0 <= i < segments.len(),
        segments[i].vaddr <= addr < segments[i].vaddr + segments[i].filesz,
        forall|j: int|
            0 <= j < i ==> !((#[trigger] segments[j]).vaddr <= addr < segments[j].vaddr
                + segments[j].filesz),
    ensures
        file_offset(segments, addr) == Some(segments[i].offset + addr - segments[i].vaddr),
    decreases i,
{
    if i > 0 {
        assert(!file_backed(segments[0], addr));
        let rest = segments.skip(1);
        assert(rest[i - 1] == segments[i]);
        assert forall|j: int| 0 <= j < i - 1 implies !((#[trigger] rest[j]).vaddr <= addr
            < rest[j].vaddr + rest[j].filesz) by {
            assert(rest[j] == segments[j + 1]);
        }
        law_addresses_are_found_in_the_file(rest, addr, i - 1);
    }
}

} // verus!
