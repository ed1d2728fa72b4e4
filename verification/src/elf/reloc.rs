//! Symbols and relocations of dynamically loaded binaries.

use crate::bytes::{get64, read_u64};
use crate::elf::{ElfBinary, ElfView, Segment};
use crate::memory::{canonical, is_canonical, page_of, AddressSpace, PageEntry};
use vstd::prelude::*;

verus! {

/// No relocation.
pub const R_X86_64_NONE: u32 = 0;

/// Direct 64-bit relocation.
pub const R_X86_64_64: u32 = 1;

/// Table entry for a symbol.
pub const R_X86_64_GLOB_DAT: u32 = 6;

/// Linkage table entry for a symbol.
pub const R_X86_64_JUMP_SLOT: u32 = 7;

/// Adjust by the load base.
pub const R_X86_64_RELATIVE: u32 = 8;

/// Addition of addresses, which wraps around.
pub open spec fn wrap_add(a: u64, b: u64) -> u64 {
    if a + b > u64::MAX {
        (a + b - 0x1_0000_0000_0000_0000) as u64
    } else {
        (a + b) as u64
    }
}

/// Whether an address is among the bytes of a segment that come from the file.
pub open spec fn file_backed(seg: Segment, addr: u64) -> bool {
    seg.vaddr <= addr < seg.vaddr + seg.filesz
}

/// The file offset of an address, by the first segment that holds it.
pub open spec fn file_offset(segments: Seq<Segment>, addr: u64) -> Option<int>
    decreases segments.len(),
{
    if segments.len() == 0 {
        None
    } else if file_backed(segments[0], addr) {
        Some(segments[0].offset + (addr - segments[0].vaddr))
    } else {
        file_offset(segments.skip(1), addr)
    }
}

/// The value of a symbol. Undefined symbols, and those outside the file, are 0.
pub open spec fn symbol_s(elf: ElfView, data: Seq<u8>, index: u32, base: u64) -> u64 {
    match elf.dynamic_info.symtab_addr {
        None => 0,
        Some(symtab) => match file_offset(elf.segments, symtab) {
            None => 0,
            Some(off) => {
                let at = off + 24 * index;
                if index == 0 || at + 24 > data.len() || get64(data, at + 8) == 0 {
                    0
                } else {
                    wrap_add(base, get64(data, at + 8))
                }
            },
        },
    }
}

/// What a relocation of a type writes; None if it writes nothing.
pub open spec fn reloc_value(
    elf: ElfView,
    data: Seq<u8>,
    base: u64,
    r_type: u32,
    r_sym: u32,
    addend: u64,
) -> Option<u64> {
    if r_type == R_X86_64_RELATIVE {
        Some(wrap_add(base, addend))
    } else if r_type == R_X86_64_GLOB_DAT || r_type == R_X86_64_JUMP_SLOT {
        Some(symbol_s(elf, data, r_sym, base))
    } else if r_type == R_X86_64_64 {
        Some(wrap_add(symbol_s(elf, data, r_sym, base), addend))
    } else {
        None
    }
}

/// The physical address behind a virtual one.
pub open spec fn translate_s(m: Map<u64, PageEntry>, addr: int) -> Option<u64> {
    if addr <= u64::MAX && canonical(addr as u64) && m.contains_key(page_of(addr as u64)) {
        Some((m[page_of(addr as u64)].frame + addr % 4096) as u64)
    } else {
        None
    }
}

/// The writes of the relocations from entry `i` of `n` on, behind those in
/// `done`. Entries beyond the end of the file are left out.
pub open spec fn relocs_s(
    elf: ElfView,
    data: Seq<u8>,
    base: u64,
    m: Map<u64, PageEntry>,
    start: int,
    i: nat,
    n: nat,
    done: Seq<(u64, u64)>,
) -> Result<Seq<(u64, u64)>, Seq<char>>
    decreases n - i,
{
    let at = start + 24 * i;
    if i >= n || at + 24 > data.len() {
        Ok(done)
    } else {
        let info = get64(data, at + 8);
        match reloc_value(
            elf,
            data,
            base,
            (info % 0x1_0000_0000) as u32,
            (info / 0x1_0000_0000) as u32,
            get64(data, at + 16),
        ) {
            None => relocs_s(elf, data, base, m, start, i + 1, n, done),
            Some(value) => match translate_s(m, base + get64(data, at)) {
                None => Err("relocation target not mapped"@),
                Some(phys) => relocs_s(
                    elf,
                    data,
                    base,
                    m,
                    start,
                    i + 1,
                    n,
                    done.push((phys, value)),
                ),
            },
        }
    }
}

/// All writes of the relocations of a binary.
pub open spec fn apply_relocations_s(
    elf: ElfView,
    data: Seq<u8>,
    base: u64,
    m: Map<u64, PageEntry>,
) -> Result<Seq<(u64, u64)>, Seq<char>> {
    let none = Seq::<(u64, u64)>::empty();
    match elf.dynamic_info.rela_addr {
        Some(rela) => match file_offset(elf.segments, rela) {
            Some(off) => if elf.is_dynamic {
                relocs_s(
                    elf,
                    data,
                    base,
                    m,
                    off,
                    0,
                    (elf.dynamic_info.rela_size / 24) as nat,
                    none,
                )
            } else {
                Ok(none)
            },
            None => Ok(none),
        },
        None => Ok(none),
    }
}

/// Every frame that an address space maps is a page-aligned physical address.
pub open spec fn frames_ok(m: Map<u64, PageEntry>) -> bool {
    forall|p: u64| #[trigger]
        m.contains_key(p) ==> m[p].frame % 4096 == 0 && m[p].frame < 0x10_0000_0000_0000
}

/// Translates a virtual address.
fn translate(space: &AddressSpace, addr: u64) -> (r: Option<u64>)
    requires
        frames_ok(space@),
    ensures
        r == translate_s(space@, addr as int),
{
    if !is_canonical(addr) {
        return None;
    }
    match space.entry(addr / 4096 % 0x10_0000_0000) {
        None => None,
        Some(e) => {
            assert(space@.contains_key(page_of(addr)));
            Some(e.frame + addr % 4096)
        },
    }
}

impl ElfBinary {
    /// The file offset of an address, if the file has it and it fits.
    fn offset_of(&self, addr: u64, len: usize) -> (r: Option<usize>)
        ensures
            match r {
                Some(off) => file_offset(self@.segments, addr) == Some(off as int) && off <= len,
                None => file_offset(self@.segments, addr) matches Some(off) ==> off > len,
            },
    {
        let mut i: usize = 0;
        assert(self.segments@.skip(0) =~= self.segments@);
        while i < self.segments.len()
            invariant
                i <= self.segments@.len(),
                file_offset(self@.segments, addr) == file_offset(
                    self.segments@.skip(i as int),
                    addr,
                ),
            decreases self.segments@.len() - i,
        {
            let seg = self.segments[i];
            assert(self.segments@.skip(i as int).skip(1) =~= self.segments@.skip(i + 1));
            if addr >= seg.vaddr && addr - seg.vaddr < seg.filesz {
                let rel: u64 = addr - seg.vaddr;
                if seg.offset > len as u64 || rel > len as u64 - seg.offset {
                    return None;
                }
                return Some((seg.offset + rel) as usize);
            }
            i = i + 1;
        }
        None
    }

    /// Looks up a symbol value by index. Symbols that other libraries define
    /// are 0.
    pub fn lookup_symbol(&self, data: &[u8], symbol_index: u32, base_addr: u64) -> (r: u64)
        ensures
            r == symbol_s(self@, data@, symbol_index, base_addr),
    {
        let len: usize = data.len();
        if symbol_index == 0 {
            return 0;
        }
        let symtab: u64 = match self.dynamic_info.symtab_addr {
            Some(addr) => addr,
            None => return 0,
        };
        let off: usize = match self.offset_of(symtab, len) {
            Some(off) => off,
            None => return 0,
        };
        let rel: u64 = 24 * (symbol_index as u64);
        if rel + 24 > (len - off) as u64 {
            return 0;
        }
        let at: usize = off + rel as usize;
        let value: u64 = read_u64(data, at + 8);
        if value == 0 {
            0
        } else {
            base_addr.wrapping_add(value)
        }
    }

    /// Computes the relocations of a dynamically loaded binary at a load base:
    /// the physical addresses and the 64-bit values to write there, in turn.
    pub fn apply_relocations(&self, data: &[u8], base_addr: u64, space: &AddressSpace) -> (r:
        Result<Vec<(u64, u64)>, &'static str>)
        requires
            frames_ok(space@),
        ensures
            match r {
                Ok(w) => apply_relocations_s(self@, data@, base_addr, space@) == Ok::<
                    Seq<(u64, u64)>,
                    Seq<char>,
                >(w@),
                Err(e) => apply_relocations_s(self@, data@, base_addr, space@) == Err::<
                    Seq<(u64, u64)>,
                    Seq<char>,
                >(e@),
            },
    {
        let len: usize = data.len();
        let mut writes: Vec<(u64, u64)> = Vec::new();
        if !self.is_dynamic {
            return Ok(writes);
        }
        let rela: u64 = match self.dynamic_info.rela_addr {
            Some(addr) => addr,
            None => return Ok(writes),
        };
        let n: u64 = self.dynamic_info.rela_size / 24;
        let start: usize = match self.offset_of(rela, len) {
            Some(off) => off,
            None => return Ok(writes),
        };
        let ghost want = relocs_s(
            self@,
            data@,
            base_addr,
            space@,
            start as int,
            0,
            n as nat,
            Seq::empty(),
        );
        let mut i: u64 = 0;
        let mut at: usize = start;
        while i < n && len - at >= 24
            invariant
                frames_ok(space@),
                len == data@.len(),
                i <= n,
                at <= len,
                at == start + 24 * i,
                want == apply_relocations_s(self@, data@, base_addr, space@),
                want == relocs_s(
                    self@,
                    data@,
                    base_addr,
                    space@,
                    start as int,
                    i as nat,
                    n as nat,
                    writes@,
                ),
            decreases n - i,
        {
            let r_offset: u64 = read_u64(data, at);
            let r_info: u64 = read_u64(data, at + 8);
            let addend: u64 = read_u64(data, at + 16);
            let r_type: u32 = (r_info % 0x1_0000_0000) as u32;
            let r_sym: u32 = (r_info / 0x1_0000_0000) as u32;
            let value: Option<u64> = if r_type == R_X86_64_RELATIVE {
                Some(base_addr.wrapping_add(addend))
            } else if r_type == R_X86_64_GLOB_DAT || r_type == R_X86_64_JUMP_SLOT {
                Some(self.lookup_symbol(data, r_sym, base_addr))
            } else if r_type == R_X86_64_64 {
                Some(self.lookup_symbol(data, r_sym, base_addr).wrapping_add(addend))
            } else {
                None
            };
            if let Some(v) = value {
                let target: Option<u64> = if r_offset > u64::MAX - base_addr {
                    None
                } else {
                    translate(space, base_addr + r_offset)
                };
                match target {
                    None => return Err("relocation target not mapped"),
                    Some(phys) => writes.push((phys, v)),
                }
            }
            i = i + 1;
            at = at + 24;
        }
        Ok(writes)
    }
}

} // verus!
