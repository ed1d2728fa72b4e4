//! What a program starts with: its permissions, its entry, its addresses, its stack.

use crate::bytes::{get64, patch, zeros};
use crate::driver::console::ConsoleView;
use crate::elf::file::{read_only, whole_file_s, KERNEL_TASK};
use crate::elf::load::{
    load_base, load_s, load_segments_s, page_added, segment_flags, stack_flags, stack_pages_s,
    Loading, STACK_BOTTOM, STACK_PAGES,
};
use crate::elf::load_laws::{
    extends, first_state, lemma_load_is, lemma_stack_pages,
};
use crate::elf::reloc::{frames_ok, symbol_s};
use crate::elf::reloc_laws::{
    count, has_table, in_table, law_relocations_are_carried_out, relocation, writes, written,
};
use crate::elf::stack::user_stack_s;
use crate::elf::{dynamic_info_s, DynamicView, ElfView};
use crate::fs::fds::{FileType, SeekWhence, VfsError};
use crate::fs::nextfs::{read_file_s, read_inode_s, FsError, FsView};
use crate::fs::open_laws::{
    law_open_starts_where_asked, law_read_goes_on_from_the_position, law_seek_leads_to_the_place,
};
use crate::fs::vfs::{file_s, open_s, read_s, resolve_s, seek_s, FilesView, ReadStep};
use crate::memory::{page_of, usable_frames, MemoryView};
use vstd::prelude::*;

verus! {

/// A page of a segment can be read by the program; it can be written to where the
/// segment has the second bit, and executed where it has the first, and nothing else is
/// special about it.
pub proof fn law_segments_have_their_permissions(flags: u32)
    ensures
        ({
            let f = segment_flags(flags);
            &&& f & 1 != 0 && f & 4 != 0
            &&& (f & 2 != 0) == (flags & 2 != 0)
            &&& (f & 0x8000_0000_0000_0000 != 0) == (flags & 1 == 0)
            &&& f & 0x7fff_ffff_ffff_fff8 == 0
        }),
{
    let w = flags & 2 != 0;
    let n = flags & 1 == 0;
    let f = segment_flags(flags);
    assert(f & 1 != 0 && f & 4 != 0 && (f & 2 != 0) == w && (f & 0x8000_0000_0000_0000 != 0) == n
        && f & 0x7fff_ffff_ffff_fff8 == 0) by (bit_vector)
        requires
            f == (if n {
                (if w {
                    1u64 | 4u64 | 2u64
                } else {
                    1u64 | 4u64
                }) | 0x8000_0000_0000_0000u64
            } else {
                if w {
                    1u64 | 4u64 | 2u64
                } else {
                    1u64 | 4u64
                }
            }),
    ;
}

/// The last page of the stack has the last frame that was taken.
proof fn lemma_top_of_stack(frames: Seq<u64>, i: nat, st: Loading)
    requires
        stack_pages_s(frames, i, st) is Ok,
        i < STACK_PAGES,
    ensures
        ({
            let st1 = stack_pages_s(frames, i, st)->Ok_0;
            let at = page_of((STACK_BOTTOM + 4096 * (STACK_PAGES - 1)) as u64);
            &&& st1.images.len() > 0
            &&& st1.space.contains_key(at)
            &&& st1.space[at].frame == st1.images.last().0
        }),
    decreases STACK_PAGES - i,
{
    let at = page_of((STACK_BOTTOM + 4096 * i) as u64);
    let mid = page_added(frames, st, at, stack_flags(), zeros(4096)).1;
    let st1 = stack_pages_s(frames, i, st)->Ok_0;
    assert(st1 == stack_pages_s(frames, i + 1, mid)->Ok_0);
    if i + 1 < STACK_PAGES {
        lemma_top_of_stack(frames, i + 1, mid);
    } else {
        assert(st1 == mid);
    }
}

/// A program that was loaded starts at its entry, counted from where it was loaded: at 1
/// GiB if it can be loaded anywhere, and where it says otherwise. Its stack pointer is in
/// the highest page of its stack, which is to hold its arguments.
#[verifier::spinoff_prover]
#[verifier::rlimit(60)]
pub proof fn law_programs_start_at_their_entry(
    elf: ElfView,
    data: Seq<u8>,
    args: Seq<Seq<char>>,
    envs: Seq<Seq<char>>,
    m: MemoryView,
)
    requires
        load_s(elf, data, args, envs, m).0 is Ok,
    ensures
        ({
            let (r, m1) = load_s(elf, data, args, envs, m);
            let l = r->Ok_0;
            let space = m1.spaces[l.cr3];
            let stack = user_stack_s(0x7FFF_FFFF_E000, 4096, args, envs);
            &&& elf.is_dynamic ==> l.entry == 0x4000_0000 + elf.entry
            &&& !elf.is_dynamic ==> l.entry == elf.entry
            &&& stack is Ok && l.stack_pointer == stack->Ok_0.0
            &&& l.images.len() > 0
            &&& l.images.last().1 == stack->Ok_0.1
            &&& space.contains_key(0x7_FFFF_FFFE)
            &&& space[0x7_FFFF_FFFE].frame == l.images.last().0
        }),
{
    let frames = usable_frames(m.regions);
    let st0 = first_state(m);
    let st1 = load_segments_s(data, elf.segments, frames, load_base(elf), 0, st0)->Ok_0;
    lemma_load_is(elf, data, args, envs, m);
    lemma_top_of_stack(frames, 0, st1);
    assert(page_of((STACK_BOTTOM + 4096 * (STACK_PAGES - 1)) as u64) == 0x7_FFFF_FFFE);
}

/// The relocations of a program that was loaded are written where its addresses lead,
/// for the place where it was loaded.
#[verifier::spinoff_prover]
#[verifier::rlimit(60)]
pub proof fn law_programs_are_relocated(
    elf: ElfView,
    data: Seq<u8>,
    args: Seq<Seq<char>>,
    envs: Seq<Seq<char>>,
    m: MemoryView,
    start: int,
    k: int,
)
    requires
        load_s(elf, data, args, envs, m).0 is Ok,
        ({
            let (r, m1) = load_s(elf, data, args, envs, m);
            frames_ok(m1.spaces[r->Ok_0.cr3])
        }),
        has_table(elf, start),
        in_table(elf, data, start, k),
        writes(relocation(data, start, k)),
    ensures
        ({
            let (r, m1) = load_s(elf, data, args, envs, m);
            let l = r->Ok_0;
            let j = count(data, start, 0, k) as int;
            let e = relocation(data, start, k);
            &&& j < l.writes.len()
            &&& written(
                m1.spaces[l.cr3],
                0x4000_0000,
                e,
                symbol_s(elf, data, e.symbol as u32, 0x4000_0000),
                l.writes[j],
            )
        }),
{
    let frames = usable_frames(m.regions);
    let st0 = first_state(m);
    let st1 = load_segments_s(data, elf.segments, frames, load_base(elf), 0, st0)->Ok_0;
    lemma_load_is(elf, data, args, envs, m);
    lemma_stack_pages(frames, 0, st1, 0);
    let (r, m1) = load_s(elf, data, args, envs, m);
    let space = m1.spaces[r->Ok_0.cr3];
    let st2 = stack_pages_s(frames, 0, st1)->Ok_0;
    assert(extends(st1, st2));
    assert(space == st2.space);
    assert(frames_ok(st1.space)) by {
        assert forall|p: u64| #[trigger] st1.space.contains_key(p) implies st1.space[p].frame % 4096
            == 0 && st1.space[p].frame < 0x10_0000_0000_0000 by {
            assert(space.contains_key(p));
        }
    }
    law_relocations_are_carried_out(elf, data, 0x4000_0000, st1.space, start, k);
}

/// The value of the last entry with a tag, from `i` up to `end` or to the first entry
/// that ends the section.
pub open spec fn last_value(
    data: Seq<u8>,
    i: int,
    end: int,
    tag: int,
    before: Option<u64>,
) -> Option<u64>
    decreases end - i,
{
    if i + 16 > end || get64(data, i) == 0 {
        before
    } else if get64(data, i) == tag {
        last_value(data, i + 16, end, tag, Some(get64(data, i + 8)))
    } else {
        last_value(data, i + 16, end, tag, before)
    }
}

/// A number that may be there, or zero.
pub open spec fn or_zero(v: Option<u64>) -> u64 {
    match v {
        Some(x) => x,
        None => 0,
    }
}

/// A dynamic section says where the tables are: that of the relocations by tag 7, its
/// size by 8; the strings by 5, their size by 10; the symbols by 6.
pub proof fn law_dynamic_section_names_the_tables(
    data: Seq<u8>,
    i: int,
    end: int,
    info: DynamicView,
    rela_size: Option<u64>,
    strtab_size: Option<u64>,
)
    requires
        info.rela_size == or_zero(rela_size),
        info.strtab_size == or_zero(strtab_size),
    ensures
        ({
            let d = dynamic_info_s(data, i, end, info);
            &&& d.rela_addr == last_value(data, i, end, 7, info.rela_addr)
            &&& d.rela_size == or_zero(last_value(data, i, end, 8, rela_size))
            &&& d.symtab_addr == last_value(data, i, end, 6, info.symtab_addr)
            &&& d.strtab_addr == last_value(data, i, end, 5, info.strtab_addr)
            &&& d.strtab_size == or_zero(last_value(data, i, end, 10, strtab_size))
        }),
    decreases end - i,
{
    if i + 16 <= end && get64(data, i) != 0 {
        let (tag, val) = (get64(data, i), get64(data, i + 8));
        let next = crate::elf::dynamic_entry(info, tag, val);
        law_dynamic_section_names_the_tables(
            data,
            i + 16,
            end,
            next,
            if tag == 8 {
                Some(val)
            } else {
                rela_size
            },
            if tag == 10 {
                Some(val)
            } else {
                strtab_size
            },
        );
    }
}

/// The steps of reading a whole file.
proof fn lemma_steps(f: FilesView, con: ConsoleView, path: Seq<char>, now: u32)
    requires
        whole_file_s(f, con, path, now).0 is Ok,
    ensures
        ({
            let (r1, f1) = open_s(f, KERNEL_TASK, path, read_only(), now);
            let (r2, f2) = seek_s(f1, KERNEL_TASK, r1->Ok_0, 0, SeekWhence::End);
            let (r3, f3) = seek_s(f2, KERNEL_TASK, r1->Ok_0, 0, SeekWhence::Start);
            let (r4, got, f4, con1) = read_s(f3, con, KERNEL_TASK, r1->Ok_0, r2->Ok_0 as nat);
            &&& r1 is Ok && r2 is Ok && r3 is Ok
            &&& r4 == Ok::<ReadStep, VfsError>(ReadStep::Bytes(r2->Ok_0 as usize))
            &&& r2->Ok_0 <= usize::MAX
            &&& whole_file_s(f, con, path, now).0->Ok_0 == patch(zeros(r2->Ok_0 as nat), 0, got)
        }),
{
}

/// Going to the end of a file and back to its beginning tells its size.
proof fn lemma_size(f1: FilesView, v: FsView, fd: u32, n: u32, all: Seq<u8>)
    requires
        f1.fs == Some(v),
        read_file_s(v, n) == Ok::<Seq<u8>, FsError>(all),
        all.len() <= i64::MAX,
        file_s(f1, KERNEL_TASK, fd) matches Ok(file) && file.file_type == FileType::Regular(n)
            && file.flags == read_only() && file.pos == 0,
    ensures
        ({
            let (r2, f2) = seek_s(f1, KERNEL_TASK, fd, 0, SeekWhence::End);
            let (r3, f3) = seek_s(f2, KERNEL_TASK, fd, 0, SeekWhence::Start);
            &&& r2 is Ok && r2->Ok_0 == all.len()
            &&& f3.fs == f1.fs
            &&& file_s(f3, KERNEL_TASK, fd) matches Ok(file) && file.file_type == FileType::Regular(
                n,
            ) && file.flags == read_only() && file.pos == 0
        }),
{
    assert(read_inode_s(v, n)->Ok_0.size == all.len());
    law_seek_leads_to_the_place(f1, v, KERNEL_TASK, fd, n, 0);
    let f2 = seek_s(f1, KERNEL_TASK, fd, 0, SeekWhence::End).1;
    law_seek_leads_to_the_place(f2, v, KERNEL_TASK, fd, n, 0);
}

/// A program is read from the disk as a whole: what was read is what the file holds.
#[verifier::spinoff_prover]
#[verifier::rlimit(60)]
pub proof fn law_programs_are_read_whole(
    f: FilesView,
    con: ConsoleView,
    path: Seq<char>,
    now: u32,
    n: u32,
    all: Seq<u8>,
)
    requires
        whole_file_s(f, con, path, now).0 is Ok,
        resolve_s(f.fs, path) == Ok::<u32, VfsError>(n),
        f.fs is Some,
        read_file_s(f.fs->Some_0, n) == Ok::<Seq<u8>, FsError>(all),
        all.len() <= usize::MAX && all.len() <= i64::MAX,
    ensures
        whole_file_s(f, con, path, now).0->Ok_0 == all,
{
    let v = f.fs->Some_0;
    lemma_steps(f, con, path, now);
    let (r1, f1) = open_s(f, KERNEL_TASK, path, read_only(), now);
    law_open_starts_where_asked(f, KERNEL_TASK, path, read_only(), now, n);
    lemma_size(f1, v, r1->Ok_0, n, all);
    let f2 = seek_s(f1, KERNEL_TASK, r1->Ok_0, 0, SeekWhence::End).1;
    let f3 = seek_s(f2, KERNEL_TASK, r1->Ok_0, 0, SeekWhence::Start).1;
    law_read_goes_on_from_the_position(f3, v, con, KERNEL_TASK, r1->Ok_0, n, all, all.len());
    let got = read_s(f3, con, KERNEL_TASK, r1->Ok_0, all.len()).1;
    assert(got =~= all) by {
        assert(all.skip(0) =~= all);
    }
    assert(patch(zeros(all.len()), 0, got) =~= got);
}

} // verus!
