//! What a loaded program finds in its memory: every byte of every segment at its
//! address, with the segment's permissions, and the kernel's mappings as they were.

use crate::elf::load::{
    addresses_ok, image_s, load_base, load_s, load_segments_s, page_added, page_image, segment_flags,
    segment_last, segment_ok, segment_pages_s, stack_flags, stack_pages_s, Loading, STACK_BOTTOM,
    STACK_PAGES, USER_STACK_TOP,
};
use crate::elf::{ElfView, Segment};
use crate::memory::{new_space_s, page_of, usable_frames, MemoryView, PageEntry};
use vstd::prelude::*;

verus! {

/// Nothing that was mapped changes, and no contents that were laid down.
pub open spec fn extends(st: Loading, st1: Loading) -> bool {
    &&& forall|p: u64| #[trigger]
        st.space.contains_key(p) ==> st1.space.contains_key(p) && st1.space[p] == st.space[p]
    &&& st.images.len() <= st1.images.len()
    &&& forall|j: int| 0 <= j < st.images.len() ==> #[trigger] st1.images[j] == st.images[j]
}

/// A page is mapped with some permissions to a frame that is to hold some bytes.
pub open spec fn page_holds(st: Loading, page: u64, flags: u64, bytes: Seq<u8>) -> bool {
    &&& st.space.contains_key(page)
    &&& st.space[page].flags == flags
    &&& exists|j: int|
        0 <= j < st.images.len() && #[trigger] st.images[j] == (st.space[page].frame, bytes)
}

/// What is mapped stays so.
proof fn lemma_extends_holds(st: Loading, st1: Loading, page: u64, flags: u64, bytes: Seq<u8>)
    requires
        extends(st, st1),
        page_holds(st, page, flags, bytes),
    ensures
        page_holds(st1, page, flags, bytes),
{
    let j = choose|j: int|
        0 <= j < st.images.len() && #[trigger] st.images[j] == (st.space[page].frame, bytes);
    assert(st1.images[j] == st.images[j]);
}

/// Mapping the pages of a segment maps each of them with its contents, and keeps what
/// was mapped before.
proof fn lemma_segment_pages(
    data: Seq<u8>,
    seg: Segment,
    frames: Seq<u64>,
    load: int,
    page: int,
    last: int,
    st: Loading,
    q: int,
)
    requires
        segment_pages_s(data, seg, frames, load, page, last, st) is Ok,
        (q - page) % 4096 == 0,
    ensures
        ({
            let st1 = segment_pages_s(data, seg, frames, load, page, last, st)->Ok_0;
            &&& extends(st, st1)
            &&& page <= q <= last ==> page_holds(
                st1,
                page_of(q as u64),
                segment_flags(seg.flags),
                page_image(data, seg, load, q),
            )
        }),
    decreases last - page + 4096,
{
    if page <= last {
        let f = frames[st.next as int];
        let at = page_of(page as u64);
        let bytes = page_image(data, seg, load, page);
        let flags = segment_flags(seg.flags);
        let mid = page_added(frames, st, at, flags, bytes).1;
        let st1 = segment_pages_s(data, seg, frames, load, page, last, st)->Ok_0;
        assert(st1 == segment_pages_s(data, seg, frames, load, page + 4096, last, mid)->Ok_0);
        lemma_segment_pages(data, seg, frames, load, page + 4096, last, mid, q);
        assert(extends(st, mid));
        assert forall|j: int| 0 <= j < st.images.len() implies #[trigger] st1.images[j]
            == st.images[j] by {
            assert(mid.images[j] == st.images[j]);
        }
        if q == page {
            assert(mid.images[st.images.len() as int] == (f, bytes));
            assert(page_holds(mid, at, flags, bytes));
            lemma_extends_holds(mid, st1, at, flags, bytes);
        }
    }
}

/// Mapping segments keeps what was mapped, and maps every page of segment `s`.
#[verifier::spinoff_prover]
#[verifier::rlimit(60)]
pub proof fn lemma_segments(
    data: Seq<u8>,
    segments: Seq<Segment>,
    frames: Seq<u64>,
    base: u64,
    i: nat,
    st: Loading,
    s: int,
    q: int,
)
    requires
        load_segments_s(data, segments, frames, base, i, st) is Ok,
        q % 4096 == 0,
    ensures
        ({
            let st1 = load_segments_s(data, segments, frames, base, i, st)->Ok_0;
            let seg = segments[s];
            let load = base + seg.vaddr;
            &&& extends(st, st1)
            &&& i <= s < segments.len() && load - load % 4096 <= q <= segment_last(seg, base)
                ==> page_holds(
                st1,
                page_of(q as u64),
                segment_flags(seg.flags),
                page_image(data, seg, load, q),
            )
        }),
    decreases segments.len() - i,
{
    if i < segments.len() {
        let seg = segments[i as int];
        let load = base + seg.vaddr;
        let last = segment_last(seg, base);
        let first = load - load % 4096;
        let mid = segment_pages_s(data, seg, frames, load, first, last - last % 4096, st)->Ok_0;
        lemma_segment_pages(data, seg, frames, load, first, last - last % 4096, st, q);
        lemma_segments(data, segments, frames, base, i + 1, mid, s, q);
        let st1 = load_segments_s(data, segments, frames, base, i, st)->Ok_0;
        assert(extends(st, st1)) by {
            assert forall|j: int| 0 <= j < st.images.len() implies #[trigger] st1.images[j]
                == st.images[j] by {
                assert(mid.images[j] == st.images[j]);
            }
        }
        if s == i && first <= q <= last {
            assert(q <= last - last % 4096);
            lemma_extends_holds(
                mid,
                st1,
                page_of(q as u64),
                segment_flags(seg.flags),
                page_image(data, seg, load, q),
            );
        }
    }
}

/// Mapping the stack keeps what was mapped, takes a frame for each page, and maps each
/// without the right to execute.
pub proof fn lemma_stack_pages(frames: Seq<u64>, i: nat, st: Loading, k: int)
    requires
        stack_pages_s(frames, i, st) is Ok,
        i <= STACK_PAGES,
    ensures
        ({
            let st1 = stack_pages_s(frames, i, st)->Ok_0;
            &&& extends(st, st1)
            &&& st1.images.len() == st.images.len() + (STACK_PAGES - i)
            &&& i <= k < STACK_PAGES ==> ({
                let at = page_of((STACK_BOTTOM + 4096 * k) as u64);
                st1.space.contains_key(at) && st1.space[at].flags == stack_flags()
            })
        }),
    decreases STACK_PAGES - i,
{
    if i < STACK_PAGES {
        let at = page_of((STACK_BOTTOM + 4096 * i) as u64);
        let mid = page_added(frames, st, at, stack_flags(), crate::bytes::zeros(4096)).1;
        let st1 = stack_pages_s(frames, i, st)->Ok_0;
        assert(st1 == stack_pages_s(frames, i + 1, mid)->Ok_0);
        lemma_stack_pages(frames, i + 1, mid, k);
        assert(extends(st, mid));
        assert(mid.space.contains_key(at));
        assert forall|j: int| 0 <= j < st.images.len() implies #[trigger] st1.images[j]
            == st.images[j] by {
            assert(mid.images[j] == st.images[j]);
        }
    }
}

/// A program that was loaded finds every byte of every segment at its address: the
/// bytes of the file, and zeros where the segment is longer in memory than in the
/// file. The page has the permissions that the segment asks for. Relocations are
/// written over the bytes afterwards.
#[verifier::spinoff_prover]
#[verifier::rlimit(60)]
pub proof fn law_segments_are_loaded(
    elf: ElfView,
    data: Seq<u8>,
    args: Seq<Seq<char>>,
    envs: Seq<Seq<char>>,
    m: MemoryView,
    s: int,
    k: int,
)
    requires
        load_s(elf, data, args, envs, m).0 is Ok,
        0 <= s < elf.segments.len(),
        0 <= k < elf.segments[s].memsz,
    ensures
        ({
            let (r, m1) = load_s(elf, data, args, envs, m);
            let seg = elf.segments[s];
            byte_is_there(
                m1.spaces[r->Ok_0.cr3],
                r->Ok_0.images,
                load_base(elf) + seg.vaddr + k,
                segment_flags(seg.flags),
                if k < seg.filesz {
                    data[seg.offset + k]
                } else {
                    0u8
                },
            )
        }),
{
    let frames = usable_frames(m.regions);
    let st0 = first_state(m);
    let r1 = load_segments_s(data, elf.segments, frames, load_base(elf), 0, st0);
    let r2 = stack_pages_s(frames, 0, r1->Ok_0);
    lemma_load_is(elf, data, args, envs, m);
    lemma_byte_of_segment(
        elf,
        data,
        frames,
        st0,
        r1->Ok_0,
        r2->Ok_0,
        load_s(elf, data, args, envs, m).0->Ok_0.images,
        s,
        k,
    );
}

/// A byte of a segment is found once segments and stack are mapped.
#[verifier::spinoff_prover]
#[verifier::rlimit(60)]
proof fn lemma_byte_of_segment(
    elf: ElfView,
    data: Seq<u8>,
    frames: Seq<u64>,
    st0: Loading,
    st1: Loading,
    st2: Loading,
    images: Seq<(u64, Seq<u8>)>,
    s: int,
    k: int,
)
    requires
        addresses_ok(elf),
        0 <= s < elf.segments.len(),
        0 <= k < elf.segments[s].memsz,
        load_segments_s(data, elf.segments, frames, load_base(elf), 0, st0) == Ok::<
            Loading,
            (Seq<char>, nat),
        >(st1),
        stack_pages_s(frames, 0, st1) == Ok::<Loading, (Seq<char>, nat)>(st2),
        images.len() == st2.images.len(),
        forall|j: int| 0 <= j < images.len() - 1 ==> #[trigger] images[j] == st2.images[j],
    ensures
        byte_is_there(
            st2.space,
            images,
            load_base(elf) + elf.segments[s].vaddr + k,
            segment_flags(elf.segments[s].flags),
            if k < elf.segments[s].filesz {
                data[elf.segments[s].offset + k]
            } else {
                0u8
            },
        ),
{
    let seg = elf.segments[s];
    let base = load_base(elf);
    let load = base + seg.vaddr;
    let addr = load + k;
    let q = addr - addr % 4096;
    assert(segment_ok(seg, base));
    lemma_floor(load, addr);
    assert(q <= segment_last(seg, base));
    lemma_segments(data, elf.segments, frames, base, 0, st0, s, q);
    lemma_stack_pages(frames, 0, st1, 0);
    lemma_segment_byte(data, seg, load, addr, st1, st2, images);
}

/// Later addresses are on later pages.
proof fn lemma_floor(a: int, b: int)
    requires
        0 <= a <= b,
    ensures
        a - a % 4096 <= b - b % 4096 <= b,
        (b - b % 4096) % 4096 == 0,
{
}

/// An address is mapped with some permissions to a frame that is to hold some byte
/// there.
pub open spec fn byte_is_there(
    space: Map<u64, PageEntry>,
    images: Seq<(u64, Seq<u8>)>,
    addr: int,
    flags: u64,
    byte: u8,
) -> bool {
    let page = page_of(addr as u64);
    &&& space.contains_key(page)
    &&& space[page].flags == flags
    &&& exists|j: int|
        0 <= j < images.len() && (#[trigger] images[j]).0 == space[page].frame
            && images[j].1[addr % 4096] == byte
}

/// A byte of a page that is mapped is found there.
proof fn lemma_segment_byte(
    data: Seq<u8>,
    seg: Segment,
    load: int,
    addr: int,
    st1: Loading,
    st2: Loading,
    images: Seq<(u64, Seq<u8>)>,
)
    requires
        0 <= load <= addr <= u64::MAX,
        page_holds(
            st1,
            page_of((addr - addr % 4096) as u64),
            segment_flags(seg.flags),
            page_image(data, seg, load, addr - addr % 4096),
        ),
        extends(st1, st2),
        st1.images.len() < st2.images.len(),
        images.len() == st2.images.len(),
        forall|j: int| 0 <= j < images.len() - 1 ==> #[trigger] images[j] == st2.images[j],
    ensures
        byte_is_there(
            st2.space,
            images,
            addr,
            segment_flags(seg.flags),
            if addr - load < seg.filesz {
                data[seg.offset + (addr - load)]
            } else {
                0u8
            },
        ),
{
    let q = addr - addr % 4096;
    let page = page_of(q as u64);
    lemma_page_of(q, addr);
    let bytes = page_image(data, seg, load, q);
    let j = choose|j: int|
        0 <= j < st1.images.len() && #[trigger] st1.images[j] == (st1.space[page].frame, bytes);
    assert(st2.images[j] == st1.images[j]);
    assert(images[j] == st2.images[j]);
    assert(images[j].1 == bytes);
}

/// Addresses of one page are in one page.
proof fn lemma_page_of(q: int, addr: int)
    requires
        0 <= addr <= u64::MAX,
        q == addr - addr % 4096,
    ensures
        page_of(q as u64) == page_of(addr as u64),
{
}

/// What is mapped before a program is loaded: what the kernel has.
pub open spec fn first_state(m: MemoryView) -> Loading {
    Loading {
        space: m.kernel,
        tables: new_space_s(m).0->Some_0.1,
        next: new_space_s(m).1.next,
        images: Seq::empty(),
    }
}

/// What loading amounts to when it succeeds: segments, stack, and the arguments in the
/// last page of the stack.
#[verifier::spinoff_prover]
#[verifier::rlimit(60)]
pub proof fn lemma_load_is(
    elf: ElfView,
    data: Seq<u8>,
    args: Seq<Seq<char>>,
    envs: Seq<Seq<char>>,
    m: MemoryView,
)
    requires
        load_s(elf, data, args, envs, m).0 is Ok,
    ensures
        ({
            let frames = usable_frames(m.regions);
            let st0 = first_state(m);
            let r1 = load_segments_s(data, elf.segments, frames, load_base(elf), 0, st0);
            let r2 = stack_pages_s(frames, 0, r1->Ok_0);
            let (r, m1) = load_s(elf, data, args, envs, m);
            let loaded = r->Ok_0;
            &&& addresses_ok(elf)
            &&& r1 is Ok
            &&& r2 is Ok
            &&& m1.kernel == m.kernel
            &&& m1.spaces == m.spaces.insert(loaded.cr3, r2->Ok_0.space)
            &&& loaded.images.len() == r2->Ok_0.images.len()
            &&& forall|j: int|
                0 <= j < loaded.images.len() - 1 ==> #[trigger] loaded.images[j]
                    == r2->Ok_0.images[j]
        }),
{
    let frames = usable_frames(m.regions);
    let st0 = first_state(m);
    let st1 = load_segments_s(data, elf.segments, frames, load_base(elf), 0, st0)->Ok_0;
    assert(image_s(elf, data, args, envs, frames, st0) is Ok);
    lemma_stack_pages(frames, 0, st1, 0);
}

/// Loading a program leaves the kernel's mappings as they are in the new address
/// space, and all other address spaces.
pub proof fn law_loading_keeps_the_kernel(
    elf: ElfView,
    data: Seq<u8>,
    args: Seq<Seq<char>>,
    envs: Seq<Seq<char>>,
    m: MemoryView,
    page: u64,
)
    requires
        load_s(elf, data, args, envs, m).0 is Ok,
    ensures
        ({
            let (r, m1) = load_s(elf, data, args, envs, m);
            let cr3 = r->Ok_0.cr3;
            &&& m1.kernel == m.kernel
            &&& m.kernel.contains_key(page) ==> m1.spaces[cr3].contains_key(page)
                && m1.spaces[cr3][page] == m.kernel[page]
            &&& forall|other: u64|
                other != cr3 && m.spaces.contains_key(other) ==> #[trigger] m1.spaces[other]
                    == m.spaces[other]
        }),
{
    let frames = usable_frames(m.regions);
    let st0 = first_state(m);
    let st1 = load_segments_s(data, elf.segments, frames, load_base(elf), 0, st0)->Ok_0;
    lemma_load_is(elf, data, args, envs, m);
    lemma_segments(data, elf.segments, frames, load_base(elf), 0, st0, 0, 0);
    lemma_stack_pages(frames, 0, st1, 0);
}

/// The stack of a loaded program can be written to and not executed.
pub proof fn law_stack_is_not_executable(
    elf: ElfView,
    data: Seq<u8>,
    args: Seq<Seq<char>>,
    envs: Seq<Seq<char>>,
    m: MemoryView,
    addr: u64,
)
    requires
        load_s(elf, data, args, envs, m).0 is Ok,
        STACK_BOTTOM <= addr < USER_STACK_TOP,
    ensures
        ({
            let (r, m1) = load_s(elf, data, args, envs, m);
            let space = m1.spaces[r->Ok_0.cr3];
            space.contains_key(page_of(addr)) && space[page_of(addr)].flags == stack_flags()
        }),
{
    let frames = usable_frames(m.regions);
    let st0 = first_state(m);
    let st1 = load_segments_s(data, elf.segments, frames, load_base(elf), 0, st0)->Ok_0;
    let k = (addr - STACK_BOTTOM) / 4096;
    lemma_load_is(elf, data, args, envs, m);
    lemma_stack_pages(frames, 0, st1, k);
    assert(page_of((STACK_BOTTOM + 4096 * k) as u64) == page_of(addr));
}

} // verus!
