//! Loading a parsed binary into a fresh address space.

use crate::bytes::{zeroed, zeros};
use crate::elf::reloc::{apply_relocations_s, frames_ok};
use crate::elf::stack::{setup_user_stack, user_stack_s};
use crate::elf::{texts, ElfBinary, ElfView, Segment, PF_W, PF_X};
use crate::memory::{
    canonical, is_canonical, lemma_next_frame, map_page_s, new_space_s, page_of, usable_frames,
    AddressSpace, MemoryManager, MemoryView, PageEntry, Tables, NO_EXECUTE, PRESENT,
    USER_ACCESSIBLE, WRITABLE,
};
use vstd::prelude::*;

verus! {

/// Where position-independent binaries are loaded: 1 GiB.
pub const DYNAMIC_LOAD_BASE: u64 = 0x4000_0000;

/// The end of the user stack.
pub const USER_STACK_TOP: u64 = 0x7FFF_FFFF_F000;

/// The user stack has 8 pages.
pub const STACK_PAGES: u64 = 8;

/// The lowest address of the user stack.
pub const STACK_BOTTOM: u64 = 0x7FFF_FFFF_7000;

/// What a physical frame is to hold.
#[derive(Debug)]
pub struct FrameImage {
    pub frame: u64,
    pub bytes: Vec<u8>,
}

/// A loaded binary: where it starts, its stack pointer and root table, what its
/// frames are to hold, and the relocations to write there afterwards.
#[derive(Debug)]
pub struct Loaded {
    pub entry: u64,
    pub stack_pointer: u64,
    pub cr3: u64,
    pub images: Vec<FrameImage>,
    pub writes: Vec<(u64, u64)>,
}

#[verifier::ext_equal]
pub struct LoadedView {
    pub entry: u64,
    pub stack_pointer: u64,
    pub cr3: u64,
    pub images: Seq<(u64, Seq<u8>)>,
    pub writes: Seq<(u64, u64)>,
}

/// The frames and contents of some images.
pub open spec fn images_of(v: Seq<FrameImage>) -> Seq<(u64, Seq<u8>)> {
    v.map_values(|i: FrameImage| (i.frame, i.bytes@))
}

impl Loaded {
    pub open spec fn view(&self) -> LoadedView {
        LoadedView {
            entry: self.entry,
            stack_pointer: self.stack_pointer,
            cr3: self.cr3,
            images: images_of(self.images@),
            writes: self.writes@,
        }
    }
}

/// What was mapped so far.
#[verifier::ext_equal]
pub struct Loading {
    pub space: Map<u64, PageEntry>,
    pub tables: Tables,
    pub next: nat,
    pub images: Seq<(u64, Seq<u8>)>,
}

/// Mapping a page to a fresh frame, with what that frame is to hold; None if it cannot
/// be mapped. Frames are taken either way, if there are any.
pub open spec fn page_added(frames: Seq<u64>, st: Loading, at: u64, flags: u64, bytes: Seq<u8>) -> (
    bool,
    Loading,
) {
    let f = frames[st.next as int];
    let (ok, space, tables, next) = map_page_s(
        frames,
        st.next + 1,
        st.space,
        st.tables,
        at,
        PageEntry { frame: f, flags },
    );
    (ok, Loading { space, tables, next, images: st.images.push((f, bytes)) })
}

/// The page permissions of a segment.
pub open spec fn segment_flags(flags: u32) -> u64 {
    let f = PRESENT | USER_ACCESSIBLE;
    let f = if flags & PF_W != 0 {
        f | WRITABLE
    } else {
        f
    };
    if flags & PF_X == 0 {
        f | NO_EXECUTE
    } else {
        f
    }
}

/// Whether the part of a page that comes from the file is within the file.
pub open spec fn page_in_file(len: int, seg: Segment, load: int, page: int) -> bool {
    let start = if page < load {
        load
    } else {
        page
    };
    let end = if page + 4096 < load + seg.filesz {
        page + 4096
    } else {
        load + seg.filesz
    };
    start < end ==> seg.offset + (end - load) <= len
}

/// The contents of a page of a segment: bytes of the file where the segment has
/// them, and zeros elsewhere.
pub open spec fn page_image(data: Seq<u8>, seg: Segment, load: int, page: int) -> Seq<u8> {
    Seq::new(
        4096,
        |k: int|
            if load <= page + k < load + seg.filesz {
                data[seg.offset + (page + k - load)]
            } else {
                0u8
            },
    )
}

/// Mapping the pages of a segment from `page` to `last`, each to the next frame.
/// A failure comes with the number of frames taken until then.
pub open spec fn segment_pages_s(
    data: Seq<u8>,
    seg: Segment,
    frames: Seq<u64>,
    load: int,
    page: int,
    last: int,
    st: Loading,
) -> Result<Loading, (Seq<char>, nat)>
    decreases last - page + 4096,
{
    let bytes = page_image(data, seg, load, page);
    let (ok, st1) = page_added(
        frames,
        st,
        page_of(page as u64),
        segment_flags(seg.flags),
        bytes,
    );
    if page > last {
        Ok(st)
    } else if st.next >= frames.len() {
        Err(("out of physical memory"@, st.next))
    } else if !ok {
        Err(("failed to map page"@, st1.next))
    } else if !page_in_file(data.len() as int, seg, load, page) {
        Err(("segment data out of bounds"@, st1.next))
    } else {
        segment_pages_s(data, seg, frames, load, page + 4096, last, st1)
    }
}

/// The last address of a segment.
pub open spec fn segment_last(seg: Segment, base: u64) -> int {
    base + seg.vaddr + seg.memsz - 1
}

/// Whether the addresses of a segment are ones that can be mapped.
pub open spec fn segment_ok(seg: Segment, base: u64) -> bool {
    let load = base + seg.vaddr;
    let last = segment_last(seg, base);
    &&& load <= u64::MAX
    &&& canonical(load as u64)
    &&& 0 <= last < 0xffff_ffff_ffff_f000
    &&& canonical(last as u64)
    &&& (load < 0x8000_0000_0000) == (last < 0x8000_0000_0000)
}

/// Mapping the segments from index `i` on.
pub open spec fn load_segments_s(
    data: Seq<u8>,
    segments: Seq<Segment>,
    frames: Seq<u64>,
    base: u64,
    i: nat,
    st: Loading,
) -> Result<Loading, (Seq<char>, nat)>
    decreases segments.len() - i,
{
    if i >= segments.len() {
        Ok(st)
    } else {
        let seg = segments[i as int];
        let load = base + seg.vaddr;
        let last = segment_last(seg, base);
        match segment_pages_s(
            data,
            seg,
            frames,
            load,
            load - load % 4096,
            last - last % 4096,
            st,
        ) {
            Err(e) => Err(e),
            Ok(st1) => load_segments_s(data, segments, frames, base, i + 1, st1),
        }
    }
}

/// Mapping the stack pages from the `i`th on.
pub open spec fn stack_pages_s(frames: Seq<u64>, i: nat, st: Loading) -> Result<
    Loading,
    (Seq<char>, nat),
>
    decreases STACK_PAGES - i,
{
    let at = page_of((STACK_BOTTOM + 4096 * i) as u64);
    let (ok, st1) = page_added(frames, st, at, stack_flags(), zeros(4096));
    if i >= STACK_PAGES {
        Ok(st)
    } else if st.next >= frames.len() {
        Err(("out of memory for stack"@, st.next))
    } else if !ok {
        Err(("failed to map stack page"@, st1.next))
    } else {
        stack_pages_s(frames, i + 1, st1)
    }
}

/// The permissions of a stack page.
pub open spec fn stack_flags() -> u64 {
    PRESENT | WRITABLE | USER_ACCESSIBLE | NO_EXECUTE
}

/// The address that a binary is loaded at.
pub open spec fn load_base(elf: ElfView) -> u64 {
    if elf.is_dynamic {
        DYNAMIC_LOAD_BASE
    } else {
        0
    }
}

/// Whether all addresses of a binary are ones that can be mapped.
pub open spec fn addresses_ok(elf: ElfView) -> bool {
    &&& load_base(elf) + elf.entry <= u64::MAX
    &&& canonical((load_base(elf) + elf.entry) as u64)
    &&& forall|i: int|
        0 <= i < elf.segments.len() ==> segment_ok(#[trigger] elf.segments[i], load_base(elf))
}

/// Everything that a binary maps, with its stack page and relocations; a failure
/// comes with the number of frames taken until then.
pub open spec fn image_s(
    elf: ElfView,
    data: Seq<u8>,
    args: Seq<Seq<char>>,
    envs: Seq<Seq<char>>,
    frames: Seq<u64>,
    st: Loading,
) -> Result<(Loading, Seq<(u64, u64)>, u64), (Seq<char>, nat)> {
    match load_segments_s(data, elf.segments, frames, load_base(elf), 0, st) {
        Err(e) => Err(e),
        Ok(st1) => match apply_relocations_s(elf, data, load_base(elf), st1.space) {
            Err(e) => Err((e, st1.next)),
            Ok(writes) => match stack_pages_s(frames, 0, st1) {
                Err(e) => Err(e),
                Ok(st2) => match user_stack_s(
                    (USER_STACK_TOP - 4096) as u64,
                    4096,
                    args,
                    envs,
                ) {
                    Err(e) => Err((e, st2.next)),
                    Ok((sp, page)) => {
                        let top = st2.images.last().0;
                        Ok(
                            (
                                Loading {
                                    images: st2.images.drop_last().push((top, page)),
                                    ..st2
                                },
                                writes,
                                sp,
                            ),
                        )
                    },
                },
            },
        },
    }
}

/// Loading a binary: nothing but the frames taken changes if it fails.
pub open spec fn load_s(
    elf: ElfView,
    data: Seq<u8>,
    args: Seq<Seq<char>>,
    envs: Seq<Seq<char>>,
    m: MemoryView,
) -> (Result<LoadedView, Seq<char>>, MemoryView) {
    if !addresses_ok(elf) {
        (Err("address out of range"@), m)
    } else {
        match new_space_s(m) {
            (None, m1) => (Err("out of memory for user page table"@), m1),
            (Some((cr3, t)), m1) => match image_s(
                elf,
                data,
                args,
                envs,
                usable_frames(m.regions),
                Loading { space: m.kernel, tables: t, next: m1.next, images: Seq::empty() },
            ) {
                Err((e, next)) => (Err(e), MemoryView { next, ..m }),
                Ok((st, writes, sp)) => (
                    Ok(
                        LoadedView {
                            entry: (load_base(elf) + elf.entry) as u64,
                            stack_pointer: sp,
                            cr3,
                            images: st.images,
                            writes,
                        },
                    ),
                    MemoryView {
                        next: st.next,
                        spaces: m.spaces.insert(cr3, st.space),
                        space_tables: m.space_tables.insert(cr3, st.tables),
                        roots: m.roots.push(cr3),
                        ..m
                    },
                ),
            },
        }
    }
}

/// A binary while it is being loaded.
struct Loader {
    space: AddressSpace,
    images: Vec<FrameImage>,
}

impl Loader {
    spec fn at(&self, mem: MemoryView) -> Loading {
        Loading {
            space: self.space@,
            tables: self.space.tables(),
            next: mem.next,
            images: images_of(self.images@),
        }
    }

    spec fn ok(&self, mem: MemoryManager, mem0: MemoryManager) -> bool {
        &&& mem.wf()
        &&& frames_ok(self.space@)
        &&& mem@ == (MemoryView { next: mem@.next, ..mem0@ })
    }

    /// Maps a page to the next frame.
    fn add_page(
        &mut self,
        mem: &mut MemoryManager,
        Ghost(mem0): Ghost<MemoryManager>,
        page: u64,
        flags: u64,
        no_frame: &'static str,
        no_page: &'static str,
    ) -> (r: Result<u64, &'static str>)
        requires
            old(self).ok(*old(mem), mem0),
        ensures
            final(self).ok(*final(mem), mem0),
            final(self).images@ == old(self).images@,
            ({
                let frames = usable_frames(mem0@.regions);
                let next = old(mem)@.next;
                let (ok, st) = page_added(
                    frames,
                    old(self).at(old(mem)@),
                    page_of(page),
                    flags,
                    Seq::empty(),
                );
                if next >= frames.len() {
                    r matches Err(e) && e@ == no_frame@ && final(mem)@ == old(mem)@
                } else if !ok {
                    r matches Err(e) && e@ == no_page@ && final(mem)@.next == st.next
                } else {
                    &&& r is Ok && r->Ok_0 == frames[next as int]
                    &&& final(mem)@.next == st.next
                    &&& final(self).space@ == st.space
                    &&& final(self).space.tables() == st.tables
                }
            }),
    {
        proof {
            lemma_next_frame(*mem);
        }
        match mem.allocate_frame() {
            None => Err(no_frame),
            Some(frame) => {
                let at: u64 = page / 4096 % 0x10_0000_0000;
                if mem.map_into(&mut self.space, at, PageEntry { frame, flags }) {
                    Ok(frame)
                } else {
                    Err(no_page)
                }
            },
        }
    }

    /// Adds what a frame is to hold.
    fn add_image(&mut self, frame: u64, bytes: Vec<u8>)
        ensures
            final(self).space@ == old(self).space@,
            final(self).space.tables() == old(self).space.tables(),
            final(self).images@.len() == old(self).images@.len() + 1,
            images_of(final(self).images@) == images_of(old(self).images@).push((frame, bytes@)),
    {
        let ghost b = bytes@;
        self.images.push(FrameImage { frame, bytes });
        assert(images_of(self.images@) =~= images_of(old(self).images@).push((frame, b)));
    }

    /// Maps the pages of a segment and fills them.
    fn add_segment(
        &mut self,
        mem: &mut MemoryManager,
        Ghost(mem0): Ghost<MemoryManager>,
        data: &[u8],
        seg: Segment,
        base: u64,
    ) -> (r: Result<(), &'static str>)
        requires
            old(self).ok(*old(mem), mem0),
            segment_ok(seg, base),
        ensures
            final(self).ok(*final(mem), mem0),
            ({
                let load = base + seg.vaddr;
                let last = segment_last(seg, base);
                match segment_pages_s(
                    data@,
                    seg,
                    usable_frames(mem0@.regions),
                    load,
                    load - load % 4096,
                    last - last % 4096,
                    old(self).at(old(mem)@),
                ) {
                    Ok(st) => r is Ok && final(self).at(final(mem)@) == st,
                    Err((e, next)) => r matches Err(m) && m@ == e && final(mem)@.next == next,
                }
            }),
    {
        let load: u64 = base + seg.vaddr;
        let last: u64 = if seg.memsz > 0 {
            load + (seg.memsz - 1)
        } else {
            load - 1
        };
        let last_page: u64 = last - last % 4096;
        let mut flags: u64 = PRESENT | USER_ACCESSIBLE;
        if seg.flags & PF_W != 0 {
            flags = flags | WRITABLE;
        }
        if seg.flags & PF_X == 0 {
            flags = flags | NO_EXECUTE;
        }
        let ghost frames = usable_frames(mem0@.regions);
        let ghost want = segment_pages_s(
            data@,
            seg,
            frames,
            load as int,
            load - load % 4096,
            last_page as int,
            old(self).at(old(mem)@),
        );
        let mut page: u64 = load - load % 4096;
        while page <= last_page
            invariant
                self.ok(*mem, mem0),
                frames == usable_frames(mem0@.regions),
                segment_ok(seg, base),
                load == base + seg.vaddr,
                last == segment_last(seg, base),
                last_page == last - last % 4096,
                flags == segment_flags(seg.flags),
                page <= last_page + 4096,
                page % 4096 == 0,
                want == segment_pages_s(
                    data@,
                    seg,
                    frames,
                    load as int,
                    load - load % 4096,
                    last_page as int,
                    old(self).at(old(mem)@),
                ),
                want == segment_pages_s(
                    data@,
                    seg,
                    frames,
                    load as int,
                    page as int,
                    last_page as int,
                    self.at(mem@),
                ),
            decreases last_page + 4096 - page,
        {
            let frame: u64 = match self.add_page(
                mem,
                Ghost(mem0),
                page,
                flags,
                "out of physical memory",
                "failed to map page",
            ) {
                Ok(f) => f,
                Err(e) => return Err(e),
            };
            match fill_page(data, seg, load, page) {
                None => return Err("segment data out of bounds"),
                Some(bytes) => self.add_image(frame, bytes),
            }
            page = page + 4096;
        }
        Ok(())
    }

    /// Maps the stack.
    fn add_stack(&mut self, mem: &mut MemoryManager, Ghost(mem0): Ghost<MemoryManager>) -> (r:
        Result<(), &'static str>)
        requires
            old(self).ok(*old(mem), mem0),
        ensures
            final(self).ok(*final(mem), mem0),
            match stack_pages_s(usable_frames(mem0@.regions), 0, old(self).at(old(mem)@)) {
                Ok(st) => r is Ok && final(self).at(final(mem)@) == st && st.images.len() > 0,
                Err((e, next)) => r matches Err(m) && m@ == e && final(mem)@.next == next,
            },
    {
        let ghost frames = usable_frames(mem0@.regions);
        let ghost want = stack_pages_s(frames, 0, old(self).at(old(mem)@));
        let mut i: u64 = 0;
        while i < STACK_PAGES
            invariant
                self.ok(*mem, mem0),
                frames == usable_frames(mem0@.regions),
                i <= STACK_PAGES,
                i > 0 ==> self.images@.len() > 0,
                want == stack_pages_s(frames, 0, old(self).at(old(mem)@)),
                want == stack_pages_s(frames, i as nat, self.at(mem@)),
            decreases STACK_PAGES - i,
        {
            let frame: u64 = match self.add_page(
                mem,
                Ghost(mem0),
                STACK_BOTTOM + 4096 * i,
                PRESENT | WRITABLE | USER_ACCESSIBLE | NO_EXECUTE,
                "out of memory for stack",
                "failed to map stack page",
            ) {
                Ok(f) => f,
                Err(e) => return Err(e),
            };
            let bytes = zeroed(4096);
            self.add_image(frame, bytes);
            i = i + 1;
        }
        Ok(())
    }
}

/// The contents of a page of a segment; None if the file is too short.
fn fill_page(data: &[u8], seg: Segment, load: u64, page: u64) -> (r: Option<Vec<u8>>)
    requires
        page <= 0xffff_ffff_ffff_e000,
    ensures
        match r {
            Some(b) => page_in_file(data@.len() as int, seg, load as int, page as int) && b@
                == page_image(data@, seg, load as int, page as int),
            None => !page_in_file(data@.len() as int, seg, load as int, page as int),
        },
{
    let len: usize = data.len();
    let mut bytes: Vec<u8> = zeroed(4096);
    let start: u64 = if page < load {
        load
    } else {
        page
    };
    // The segment's bytes in the page end after `take` bytes of the segment.
    let take: u64 = if page + 4096 < load {
        0
    } else if page + 4096 - load < seg.filesz {
        page + 4096 - load
    } else {
        seg.filesz
    };
    let ghost end = if page + 4096 < load + seg.filesz {
        page + 4096
    } else {
        load + seg.filesz
    };
    if page + 4096 < load || start - load >= take {
        assert(start >= end);
        assert(bytes@ =~= page_image(data@, seg, load as int, page as int));
        return Some(bytes);
    }
    assert(end == load + take);
    if seg.offset > len as u64 || take > len as u64 - seg.offset {
        return None;
    }
    let mut k: u64 = start - load;
    while k < take
        invariant
            len == data@.len(),
            page <= 0xffff_ffff_ffff_e000,
            start == (if page < load {
                load
            } else {
                page
            }),
            end == load + take,
            end <= page + 4096,
            end == (if page + 4096 < load + seg.filesz {
                page + 4096
            } else {
                load + seg.filesz
            }),
            seg.offset + take <= len,
            start - load <= k <= take,
            bytes@.len() == 4096,
            forall|j: int|
                0 <= j < 4096 ==> #[trigger] bytes@[j] == (if load <= page + j < load + k {
                    data@[seg.offset + (page + j - load)]
                } else {
                    0u8
                }),
        decreases take - k,
    {
        let at: usize = (load + k - page) as usize;
        bytes.set(at, data[(seg.offset + k) as usize]);
        k = k + 1;
    }
    assert(bytes@ =~= page_image(data@, seg, load as int, page as int));
    Some(bytes)
}

impl ElfBinary {
    /// The address that the binary is loaded at.
    fn base(&self) -> (r: u64)
        ensures
            r == load_base(self@),
    {
        if self.is_dynamic {
            DYNAMIC_LOAD_BASE
        } else {
            0
        }
    }

    /// Whether all addresses can be mapped.
    fn check_addresses(&self) -> (r: bool)
        ensures
            r == addresses_ok(self@),
    {
        let base: u64 = self.base();
        if self.entry > u64::MAX - base || !is_canonical(base + self.entry) {
            return false;
        }
        let mut i: usize = 0;
        while i < self.segments.len()
            invariant
                i <= self.segments@.len(),
                base == load_base(self@),
                forall|k: int| 0 <= k < i ==> segment_ok(#[trigger] self@.segments[k], base),
            decreases self.segments@.len() - i,
        {
            let seg = self.segments[i];
            assert(self@.segments[i as int] == seg);
            if seg.vaddr > u64::MAX - base {
                return false;
            }
            let load: u64 = base + seg.vaddr;
            if !is_canonical(load) || seg.memsz > 0xffff_ffff_ffff_f000 || load
                > 0xffff_ffff_ffff_f000 - seg.memsz || load + seg.memsz == 0 {
                return false;
            }
            let last: u64 = load + seg.memsz - 1;
            if !is_canonical(last) || (load < 0x8000_0000_0000) != (last < 0x8000_0000_0000) {
                return false;
            }
            i = i + 1;
        }
        true
    }

    /// Loads this binary into a fresh user address space, with `args` and `envs`
    /// on its initial stack. Returns the entry point and the stack pointer, and
    /// what the frames of the new address space are to hold.
    pub fn load(
        &self,
        data: &[u8],
        args: &Vec<String>,
        envs: &Vec<String>,
        mem: &mut MemoryManager,
    ) -> (r: Result<Loaded, &'static str>)
        requires
            old(mem).wf(),
            frames_ok(old(mem)@.kernel),
        ensures
            final(mem).wf(),
            ({
                let (want, m) = load_s(self@, data@, texts(args@), texts(envs@), old(mem)@);
                &&& final(mem)@ == m
                &&& match r {
                    Ok(l) => want == Ok::<LoadedView, Seq<char>>(l@),
                    Err(e) => want == Err::<LoadedView, Seq<char>>(e@),
                }
            }),
    {
        if !self.check_addresses() {
            return Err("address out of range");
        }
        let base: u64 = self.base();
        let (cr3, space) = match mem.create_user_mapper() {
            None => return Err("out of memory for user page table"),
            Some(p) => p,
        };
        let ghost mem0 = *mem;
        let ghost frames = usable_frames(mem0@.regions);
        let mut loader = Loader { space, images: Vec::new() };
        let ghost st0 = loader.at(mem@);
        assert(st0.images =~= Seq::empty());
        let ghost segments = load_segments_s(data@, self@.segments, frames, base, 0, st0);
        let mut i: usize = 0;
        while i < self.segments.len()
            invariant
                i <= self.segments@.len(),
                loader.ok(*mem, mem0),
                frames == usable_frames(mem0@.regions),
                base == load_base(self@),
                addresses_ok(self@),
                mem0.wf(),
                new_space_s(old(mem)@) == (Some((cr3, st0.tables)), mem0@),
                mem0@ == (MemoryView { next: mem0@.next, ..old(mem)@ }),
                st0 == (Loading {
                    space: mem0@.kernel,
                    tables: st0.tables,
                    next: mem0@.next,
                    images: Seq::empty(),
                }),
                segments == load_segments_s(data@, self@.segments, frames, base, 0, st0),
                segments == load_segments_s(
                    data@,
                    self@.segments,
                    frames,
                    base,
                    i as nat,
                    loader.at(mem@),
                ),
            decreases self.segments@.len() - i,
        {
            let seg = self.segments[i];
            assert(segment_ok(self@.segments[i as int], base));
            match loader.add_segment(mem, Ghost(mem0), data, seg, base) {
                Ok(_) => {},
                Err(e) => return Err(e),
            }
            i = i + 1;
        }
        let writes = match self.apply_relocations(data, base, &loader.space) {
            Ok(w) => w,
            Err(e) => return Err(e),
        };
        match loader.add_stack(mem, Ghost(mem0)) {
            Ok(_) => {},
            Err(e) => return Err(e),
        }
        let (sp, page) = match setup_user_stack(USER_STACK_TOP - 4096, 4096, args, envs) {
            Ok(p) => p,
            Err(e) => return Err(e),
        };
        let ghost st2 = loader.at(mem@);
        let ghost st3 = Loading {
            images: st2.images.drop_last().push((st2.images.last().0, page@)),
            ..st2
        };
        match loader.images.pop() {
            None => {},
            Some(top) => {
                assert(images_of(loader.images@) =~= st2.images.drop_last());
                loader.add_image(top.frame, page);
            },
        }
        assert(loader.at(mem@) == st3);
        let Loader { space, images } = loader;
        let cr3: u64 = mem.store_user_mapper(cr3, space);
        Ok(Loaded { entry: base + self.entry, stack_pointer: sp, cr3, images, writes })
    }
}

} // verus!
