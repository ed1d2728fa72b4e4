//! ELF binary loader for user-space processes: 64-bit little-endian x86-64
//! executables and position-independent executables.

pub mod file;
pub mod header_laws;
pub mod load;
pub mod load_laws;
pub mod program_laws;
pub mod reloc;
pub mod reloc_laws;
pub mod stack;

use crate::bytes::{get16, get32, get64, read_u16, read_u32, read_u64};
use crate::text::{decimal, push_decimal};
use vstd::prelude::*;

verus! {

/// 64-bit objects.
pub const ELFCLASS64: u8 = 2;

/// Little-endian objects.
pub const ELFDATA2LSB: u8 = 1;

/// Executable.
pub const ET_EXEC: u16 = 2;

/// Shared object or position-independent executable.
pub const ET_DYN: u16 = 3;

/// x86-64.
pub const EM_X86_64: u16 = 62;

/// Loadable segment.
pub const PT_LOAD: u32 = 1;

/// Dynamic linking information.
pub const PT_DYNAMIC: u32 = 2;

/// Executable segment.
pub const PF_X: u32 = 1;

/// Writable segment.
pub const PF_W: u32 = 2;

/// End of the dynamic section.
pub const DT_NULL: u64 = 0;

/// Name of a library that is needed.
pub const DT_NEEDED: u64 = 1;

/// Address of the string table.
pub const DT_STRTAB: u64 = 5;

/// Address of the symbol table.
pub const DT_SYMTAB: u64 = 6;

/// Address of the relocation table.
pub const DT_RELA: u64 = 7;

/// Size of the relocation table.
pub const DT_RELASZ: u64 = 8;

/// Size of the string table.
pub const DT_STRSZ: u64 = 10;

/// A loadable segment.
#[derive(Debug, Clone, Copy, PartialEq, Eq, Structural)]
pub struct Segment {
    pub vaddr: u64,
    pub memsz: u64,
    pub filesz: u64,
    pub offset: u64,
    pub flags: u32,
}

/// Dynamic section information.
#[derive(Debug)]
pub struct DynamicInfo {
    pub rela_addr: Option<u64>,
    pub rela_size: u64,
    pub symtab_addr: Option<u64>,
    pub strtab_addr: Option<u64>,
    pub strtab_size: u64,
    pub needed_libs: Vec<String>,
}

/// A parsed ELF binary.
#[derive(Debug)]
pub struct ElfBinary {
    pub entry: u64,
    pub segments: Vec<Segment>,
    pub dynamic_info: DynamicInfo,
    pub is_dynamic: bool,
}

#[verifier::ext_equal]
pub struct DynamicView {
    pub rela_addr: Option<u64>,
    pub rela_size: u64,
    pub symtab_addr: Option<u64>,
    pub strtab_addr: Option<u64>,
    pub strtab_size: u64,
    pub needed_libs: Seq<Seq<char>>,
}

#[verifier::ext_equal]
pub struct ElfView {
    pub entry: u64,
    pub segments: Seq<Segment>,
    pub dynamic_info: DynamicView,
    pub is_dynamic: bool,
}

/// The contents of a list of strings.
pub open spec fn texts(v: Seq<String>) -> Seq<Seq<char>> {
    v.map_values(|s: String| s@)
}

impl DynamicInfo {
    pub open spec fn view(&self) -> DynamicView {
        DynamicView {
            rela_addr: self.rela_addr,
            rela_size: self.rela_size,
            symtab_addr: self.symtab_addr,
            strtab_addr: self.strtab_addr,
            strtab_size: self.strtab_size,
            needed_libs: texts(self.needed_libs@),
        }
    }
}

impl ElfBinary {
    pub open spec fn view(&self) -> ElfView {
        ElfView {
            entry: self.entry,
            segments: self.segments@,
            dynamic_info: self.dynamic_info@,
            is_dynamic: self.is_dynamic,
        }
    }
}

/// What a dynamic section says before its first entry was read.
pub open spec fn no_dynamic() -> DynamicView {
    DynamicView {
        rela_addr: None,
        rela_size: 0,
        symtab_addr: None,
        strtab_addr: None,
        strtab_size: 0,
        needed_libs: Seq::empty(),
    }
}

/// The file offset of a program header.
pub open spec fn header_at(data: Seq<u8>, i: int) -> int {
    get64(data, 32) + 56 * i
}

/// The segment that a program header describes.
pub open spec fn segment_at(data: Seq<u8>, off: int) -> Segment {
    Segment {
        vaddr: get64(data, off + 16),
        memsz: get64(data, off + 40),
        filesz: get64(data, off + 32),
        offset: get64(data, off + 8),
        flags: get32(data, off + 4),
    }
}

/// The loadable segments among the first `n` program headers.
pub open spec fn segments_s(data: Seq<u8>, n: nat) -> Seq<Segment>
    decreases n,
{
    if n == 0 {
        Seq::empty()
    } else {
        let before = segments_s(data, (n - 1) as nat);
        let off = header_at(data, n - 1);
        if get32(data, off) == PT_LOAD {
            before.push(segment_at(data, off))
        } else {
            before
        }
    }
}

/// Offset and size of the dynamic section, from the last of the first `n`
/// program headers that names one.
pub open spec fn dynamic_s(data: Seq<u8>, n: nat) -> Option<(u64, u64)>
    decreases n,
{
    if n == 0 {
        None
    } else {
        let off = header_at(data, n - 1);
        if get32(data, off) == PT_DYNAMIC {
            Some((get64(data, off + 8), get64(data, off + 32)))
        } else {
            dynamic_s(data, (n - 1) as nat)
        }
    }
}

/// What one entry of the dynamic section adds.
pub open spec fn dynamic_entry(info: DynamicView, tag: u64, val: u64) -> DynamicView {
    if tag == DT_RELA {
        DynamicView { rela_addr: Some(val), ..info }
    } else if tag == DT_RELASZ {
        DynamicView { rela_size: val, ..info }
    } else if tag == DT_SYMTAB {
        DynamicView { symtab_addr: Some(val), ..info }
    } else if tag == DT_STRTAB {
        DynamicView { strtab_addr: Some(val), ..info }
    } else if tag == DT_STRSZ {
        DynamicView { strtab_size: val, ..info }
    } else if tag == DT_NEEDED {
        DynamicView { needed_libs: info.needed_libs.push("lib"@ + decimal(val as nat)), ..info }
    } else {
        info
    }
}

/// The dynamic section from `i` up to `end`: entries of 16 bytes, up to the
/// first that ends the section.
pub open spec fn dynamic_info_s(data: Seq<u8>, i: int, end: int, info: DynamicView) -> DynamicView
    decreases end - i,
{
    if i + 16 > end || get64(data, i) == DT_NULL {
        info
    } else {
        dynamic_info_s(
            data,
            i + 16,
            end,
            dynamic_entry(info, get64(data, i), get64(data, i + 8)),
        )
    }
}

/// Parsing an ELF file.
pub open spec fn parse_s(data: Seq<u8>) -> Result<ElfView, Seq<char>> {
    let phnum = get16(data, 56) as nat;
    if data.len() < 64 {
        Err("ELF file too small"@)
    } else if data.subrange(0, 4) != seq![0x7fu8, 0x45u8, 0x4cu8, 0x46u8] {
        Err("Invalid ELF magic"@)
    } else if data[4] != ELFCLASS64 {
        Err("Not a 64-bit ELF"@)
    } else if data[5] != ELFDATA2LSB {
        Err("Not little-endian"@)
    } else if get16(data, 16) != ET_EXEC && get16(data, 16) != ET_DYN {
        Err("Not an executable or shared object ELF"@)
    } else if get16(data, 18) != EM_X86_64 {
        Err("Not x86-64"@)
    } else if phnum > 0 && header_at(data, phnum as int) > data.len() {
        Err("Program header out of bounds"@)
    } else {
        Ok(
            ElfView {
                entry: get64(data, 24),
                segments: segments_s(data, phnum),
                dynamic_info: match dynamic_s(data, phnum) {
                    Some((start, size)) => if start + size <= data.len() {
                        dynamic_info_s(data, start as int, start + size, no_dynamic())
                    } else {
                        no_dynamic()
                    },
                    None => no_dynamic(),
                },
                is_dynamic: get16(data, 16) == ET_DYN,
            },
        )
    }
}

impl ElfBinary {
    /// Parses an ELF binary from raw bytes.
    pub fn parse(data: &[u8]) -> (r: Result<ElfBinary, &'static str>)
        ensures
            match r {
                Ok(elf) => parse_s(data@) == Ok::<ElfView, Seq<char>>(elf@),
                Err(e) => parse_s(data@) == Err::<ElfView, Seq<char>>(e@),
            },
    {
        let len: usize = data.len();
        if len < 64 {
            return Err("ELF file too small");
        }
        proof {
            let magic = seq![0x7fu8, 0x45u8, 0x4cu8, 0x46u8];
            let head = data@.subrange(0, 4);
            assert(head == magic <==> head[0] == magic[0] && head[1] == magic[1] && head[2]
                == magic[2] && head[3] == magic[3]) by {
                if head[0] == magic[0] && head[1] == magic[1] && head[2] == magic[2] && head[3]
                    == magic[3] {
                    assert(head =~= magic);
                }
            }
        }
        if data[0] != 0x7f || data[1] != 0x45 || data[2] != 0x4c || data[3] != 0x46 {
            return Err("Invalid ELF magic");
        }
        if data[4] != ELFCLASS64 {
            return Err("Not a 64-bit ELF");
        }
        if data[5] != ELFDATA2LSB {
            return Err("Not little-endian");
        }
        let e_type: u16 = read_u16(data, 16);
        let e_machine: u16 = read_u16(data, 18);
        if e_type != ET_EXEC && e_type != ET_DYN {
            return Err("Not an executable or shared object ELF");
        }
        if e_machine != EM_X86_64 {
            return Err("Not x86-64");
        }
        let entry: u64 = read_u64(data, 24);
        let phoff: u64 = read_u64(data, 32);
        let phnum: u16 = read_u16(data, 56);
        let table: u64 = 56 * (phnum as u64);
        if phnum > 0 && (phoff > len as u64 || table > len as u64 - phoff) {
            return Err("Program header out of bounds");
        }
        let mut segments: Vec<Segment> = Vec::new();
        let mut dynamic: Option<(u64, u64)> = None;
        let mut i: u16 = 0;
        while i < phnum
            invariant
                i <= phnum,
                len == data@.len(),
                len >= 64,
                phoff == get64(data@, 32),
                phnum > 0 ==> header_at(data@, phnum as int) <= data@.len(),
                segments@ == segments_s(data@, i as nat),
                dynamic == dynamic_s(data@, i as nat),
            decreases phnum - i,
        {
            let off: usize = (phoff + 56 * (i as u64)) as usize;
            let p_type: u32 = read_u32(data, off);
            if p_type == PT_DYNAMIC {
                dynamic = Some((read_u64(data, off + 8), read_u64(data, off + 32)));
            } else if p_type == PT_LOAD {
                segments.push(
                    Segment {
                        vaddr: read_u64(data, off + 16),
                        memsz: read_u64(data, off + 40),
                        filesz: read_u64(data, off + 32),
                        offset: read_u64(data, off + 8),
                        flags: read_u32(data, off + 4),
                    },
                );
            }
            i = i + 1;
        }
        let dynamic_info = parse_dynamic(data, dynamic);
        Ok(ElfBinary { entry, segments, dynamic_info, is_dynamic: e_type == ET_DYN })
    }
}

/// Reads the dynamic section, as far as it is within the file.
fn parse_dynamic(data: &[u8], dynamic: Option<(u64, u64)>) -> (info: DynamicInfo)
    ensures
        info@ == (match dynamic {
            Some((start, size)) => if start + size <= data@.len() {
                dynamic_info_s(data@, start as int, start + size, no_dynamic())
            } else {
                no_dynamic()
            },
            None => no_dynamic(),
        }),
{
    let len: usize = data.len();
    let mut info = DynamicInfo {
        rela_addr: None,
        rela_size: 0,
        symtab_addr: None,
        strtab_addr: None,
        strtab_size: 0,
        needed_libs: Vec::new(),
    };
    assert(info@ =~= no_dynamic());
    let (start, size) = match dynamic {
        Some((start, size)) => (start, size),
        None => return info,
    };
    if start > len as u64 || size > len as u64 - start {
        return info;
    }
    let end: usize = (start + size) as usize;
    let mut i: usize = start as usize;
    let ghost want = dynamic_info_s(data@, start as int, end as int, no_dynamic());
    while end - i >= 16
        invariant
            i <= end <= len,
            len == data@.len(),
            want == dynamic_info_s(data@, i as int, end as int, info@),
        ensures
            want == info@,
        decreases end - i,
    {
        let tag: u64 = read_u64(data, i);
        let val: u64 = read_u64(data, i + 8);
        if tag == DT_NULL {
            break;
        }
        let ghost before = info@;
        if tag == DT_RELA {
            info.rela_addr = Some(val);
        } else if tag == DT_RELASZ {
            info.rela_size = val;
        } else if tag == DT_SYMTAB {
            info.symtab_addr = Some(val);
        } else if tag == DT_STRTAB {
            info.strtab_addr = Some(val);
        } else if tag == DT_STRSZ {
            info.strtab_size = val;
        } else if tag == DT_NEEDED {
            let mut name = "lib".to_owned();
            push_decimal(&mut name, val);
            info.needed_libs.push(name);
        }
        assert(info@ =~= dynamic_entry(before, tag, val));
        i = i + 16;
    }
    info
}

} // verus!
