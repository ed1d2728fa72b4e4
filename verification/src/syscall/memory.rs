//! System calls on the caller's memory.

use crate::memory::{
    canonical, heap_flags, is_canonical, law_region_gets_fresh_frames, map_page_s, map_pages_s,
    page_of, unmap_pages_s, usable_frames, MemoryManager, MemoryView, PageEntry, Tables,
};
use vstd::prelude::*;

verus! {

/// How many pages hold `len` bytes.
pub open spec fn pages_for(len: u64) -> int {
    (len + 4095) / 4096
}

/// How many pages there are from the one that holds `addr` to the end of its half of
/// the addresses: user memory lies in the lower half, the kernel in the upper one.
pub open spec fn pages_above(addr: u64) -> int {
    if addr < 0x8000_0000_0000 {
        0x8_0000_0000 - page_of(addr)
    } else {
        0x10_0000_0000 - page_of(addr)
    }
}

/// How many of the pages of a range lie in the half of the addresses it begins in.
pub open spec fn pages_within(addr: u64, len: u64) -> nat {
    if pages_for(len) <= pages_above(addr) {
        pages_for(len) as nat
    } else {
        pages_above(addr) as nat
    }
}

/// Mapping fresh pages for a task at its next free address. Where there are no frames
/// the call fails, but the addresses are used up all the same. A task without an
/// address space of its own cannot map; no range goes on behind the end of a half of
/// the addresses, and none begins between the halves.
pub open spec fn mmap_s(m: MemoryView, cr3: Option<u64>, next: u64, len: u64) -> (
    Option<u64>,
    MemoryView,
    u64,
) {
    let after = next + 4096 * pages_for(len);
    if len == 0 || cr3 is None || !canonical(next) || after > u64::MAX {
        (None, m, next)
    } else {
        let c = cr3->Some_0;
        let n = pages_within(next, len);
        let (ok, space, tables, used) = map_pages_s(
            usable_frames(m.regions),
            m.next,
            m.spaces[c],
            m.space_tables[c],
            page_of(next),
            n,
            heap_flags(true),
        );
        (
            if ok && n == pages_for(len) {
                Some(next)
            } else {
                None
            },
            MemoryView {
                spaces: m.spaces.insert(c, space),
                space_tables: m.space_tables.insert(c, tables),
                next: used,
                ..m
            },
            after as u64,
        )
    }
}

/// Counts the pages of a range, and those of them in the half that it begins in.
fn count_pages(addr: u64, len: u64) -> (r: (u64, u64))
    requires
        canonical(addr),
    ensures
        r.0 == pages_for(len),
        r.1 == pages_within(addr, len),
        page_of(addr) + r.1 <= 0x10_0000_0000,
{
    let count: u64 = len / 4096 + (if len % 4096 == 0 {
        0
    } else {
        1
    });
    assert(count == pages_for(len));
    let page: u64 = addr / 4096 % 0x10_0000_0000;
    let end: u64 = if addr < 0x8000_0000_0000 {
        0x8_0000_0000
    } else {
        0x10_0000_0000
    };
    assert(page < end);
    if count <= end - page {
        (count, count)
    } else {
        (count, end - page)
    }
}

/// Maps fresh pages for the task with the address space `cr3`, whose next free
/// address is `next`. Returns where they are, and the next free address.
pub fn sys_mmap_impl(mem: &mut MemoryManager, cr3: Option<u64>, next: u64, len: u64) -> (r: (
    Option<u64>,
    u64,
))
    requires
        old(mem).wf(),
        cr3 matches Some(c) ==> old(mem)@.spaces.contains_key(c),
    ensures
        final(mem).wf(),
        (r.0, final(mem)@, r.1) == mmap_s(old(mem)@, cr3, next, len),
{
    if len == 0 || !is_canonical(next) {
        return (None, next);
    }
    let (count, n) = count_pages(next, len);
    if count > (u64::MAX - next) / 4096 {
        return (None, next);
    }
    match cr3 {
        None => (None, next),
        Some(c) => {
            let r = mem.map_user_region(c, next, n, true);
            let after: u64 = next + 4096 * count;
            match r {
                Ok(_) if n == count => (Some(next), after),
                _ => (None, after),
            }
        },
    }
}

/// Unmapping pages of a task. It stops at the first page that is not mapped or lies
/// behind the end of the half of the addresses; the pages before it stay unmapped. An
/// address between the halves has no page.
pub open spec fn munmap_s(m: MemoryView, cr3: Option<u64>, addr: u64, len: u64) -> (
    bool,
    MemoryView,
) {
    if len == 0 {
        (true, m)
    } else if cr3 is None || !canonical(addr) {
        (false, m)
    } else {
        let c = cr3->Some_0;
        let n = pages_within(addr, len);
        let (ok, space) = unmap_pages_s(m.spaces[c], page_of(addr), n);
        (
            ok && n == pages_for(len),
            MemoryView { spaces: m.spaces.insert(c, space), ..m },
        )
    }
}

/// Unmaps pages of the task with the address space `cr3`.
pub fn sys_munmap_impl(mem: &mut MemoryManager, cr3: Option<u64>, addr: u64, len: u64) -> (r: Result<
    (),
    (),
>)
    requires
        old(mem).wf(),
        cr3 matches Some(c) ==> old(mem)@.spaces.contains_key(c),
    ensures
        final(mem).wf(),
        (r is Ok, final(mem)@) == munmap_s(old(mem)@, cr3, addr, len),
{
    if len == 0 {
        return Ok(());
    }
    if !is_canonical(addr) {
        return Err(());
    }
    let (count, n) = count_pages(addr, len);
    match cr3 {
        None => Err(()),
        Some(c) => match mem.unmap_user_region(c, addr, n) {
            Ok(_) if n == count => Ok(()),
            _ => Err(()),
        },
    }
}

/// What was mapped and then unmapped leaves the mappings as they were.
pub proof fn law_unmap_undoes_map(
    frames: Seq<u64>,
    next: nat,
    space: Map<u64, PageEntry>,
    t: Tables,
    page: u64,
    count: nat,
    flags: u64,
)
    requires
        page + count <= 0x10_0000_0000,
        map_pages_s(frames, next, space, t, page, count, flags).0,
    ensures
        unmap_pages_s(
            map_pages_s(frames, next, space, t, page, count, flags).1,
            page,
            count,
        ) == (true, space),
    decreases count,
{
    if count > 0 {
        let e = PageEntry { frame: frames[next as int], flags };
        let (ok, grown, t1, next1) = map_page_s(frames, next + 1, space, t, page, e);
        let up = (page + 1) as u64;
        let rest = (count - 1) as nat;
        let all = map_pages_s(frames, next1, grown, t1, up, rest, flags).1;
        law_unmap_undoes_map(frames, next1, grown, t1, up, rest, flags);
        lemma_map_keeps(frames, next1, grown, t1, up, rest, flags, page);
        lemma_unmap_apart(all, page, up, rest);
        assert(grown.remove(page) =~= space);
    }
}

/// Mapping pages keeps what was mapped.
proof fn lemma_map_keeps(
    frames: Seq<u64>,
    next: nat,
    m: Map<u64, PageEntry>,
    t: Tables,
    page: u64,
    n: nat,
    flags: u64,
    p: u64,
)
    requires
        m.contains_key(p),
    ensures
        map_pages_s(frames, next, m, t, page, n, flags).1.contains_key(p),
    decreases n,
{
    if n > 0 && next < frames.len() {
        let e = PageEntry { frame: frames[next as int], flags };
        let (ok, m1, t1, next1) = map_page_s(frames, next + 1, m, t, page, e);
        if ok {
            lemma_map_keeps(
                frames,
                next1,
                m1,
                t1,
                (page + 1) as u64,
                (n - 1) as nat,
                flags,
                p,
            );
        }
    }
}

/// Whether a page below is mapped makes no difference to unmapping others.
proof fn lemma_unmap_apart(m: Map<u64, PageEntry>, p: u64, page: u64, n: nat)
    requires
        p < page,
        page + n <= 0x10_0000_0000,
    ensures
        unmap_pages_s(m.remove(p), page, n) == (
            unmap_pages_s(m, page, n).0,
            unmap_pages_s(m, page, n).1.remove(p),
        ),
    decreases n,
{
    if n > 0 && m.contains_key(page) {
        lemma_unmap_apart(m.remove(page), p, (page + 1) as u64, (n - 1) as nat);
        assert(m.remove(p).remove(page) =~= m.remove(page).remove(p));
    }
}

/// Memory that was mapped begins where the task's free addresses began; every page that
/// it reaches into was free, and is now present, writable and the task's to use, with a
/// frame that nothing before it was given and that no other page of it has. Nothing else
/// of the task's memory changes, nor that of any other task. The free addresses go on
/// behind it, at the next whole page.
pub proof fn law_mapped_memory_can_be_used(m: MemoryView, cr3: u64, next: u64, len: u64)
    requires
        m.next <= usable_frames(m.regions).len(),
        next % 4096 == 0,
        mmap_s(m, Some(cr3), next, len).0 is Some,
    ensures
        ({
            let frames = usable_frames(m.regions);
            let (r, m1, after) = mmap_s(m, Some(cr3), next, len);
            let first = next as int / 4096;
            let space = m.spaces[cr3];
            let space1 = m1.spaces[cr3];
            &&& r == Some(next)
            &&& next + len <= after < next + len + 4096
            &&& after % 4096 == 0
            &&& next < 0x8000_0000_0000 ==> after <= 0x8000_0000_0000
            &&& next < 0x8000_0000_0000 ==> forall|a: int|
                next <= a < next + len ==> {
                    let p = (#[trigger] (a / 4096)) as u64;
                    &&& !space.contains_key(p)
                    &&& space1.contains_key(p)
                    &&& space1[p].flags == 7
                    &&& exists|k: int|
                        m.next <= k < m1.next && space1[p].frame == #[trigger] frames[k]
                }
            &&& next < 0x8000_0000_0000 ==> forall|p: u64|
                !(first <= p < after as int / 4096) ==> #[trigger] space1.contains_key(p)
                    == space.contains_key(p) && space1[p] == space[p]
            &&& forall|other: u64|
                other != cr3 ==> #[trigger] m1.spaces[other] == m.spaces[other]
            &&& m1.kernel == m.kernel
        }),
{
    let frames = usable_frames(m.regions);
    let n = pages_within(next, len);
    let page = page_of(next);
    let at = law_region_gets_fresh_frames(
        frames,
        m.next,
        m.spaces[cr3],
        m.space_tables[cr3],
        page,
        n,
        heap_flags(true),
    );
    assert(1u64 | 4 | 2 == 7) by (bit_vector);
    let (r, m1, after) = mmap_s(m, Some(cr3), next, len);
    let space1 = m1.spaces[cr3];
    assert(n == pages_for(len));
    if next < 0x8000_0000_0000 {
        assert(page == next / 4096);
        assert forall|a: int| next <= a < next + len implies {
            let p = (#[trigger] (a / 4096)) as u64;
            &&& !m.spaces[cr3].contains_key(p)
            &&& space1.contains_key(p)
            &&& space1[p].flags == 7
            &&& exists|k: int| m.next <= k < m1.next && space1[p].frame == #[trigger] frames[k]
        } by {
            let p = (a / 4096) as u64;
            assert(page <= p < page + n);
            let k = at[p - page];
            assert(space1[p].frame == frames[k]);
        }
    }
}

/// Unmapping takes a range of user memory away: it succeeds exactly if every page of it was
/// mapped, and then none of them is. No other page of the task changes, nor any other
/// task's memory; and pages behind the first that was not mapped stay.
pub proof fn law_unmapped_memory_is_gone(m: MemoryView, cr3: u64, addr: u64, len: u64)
    requires
        0 < len,
        addr % 4096 == 0,
        addr + len <= 0x8000_0000_0000,
    ensures
        ({
            let (ok, m1) = munmap_s(m, Some(cr3), addr, len);
            let first = addr as int / 4096;
            let end = (addr + len + 4095) / 4096;
            &&& ok <==> forall|p: u64|
                first <= p < end ==> #[trigger] m.spaces[cr3].contains_key(p)
            &&& ok ==> forall|p: u64|
                first <= p < end ==> !#[trigger] m1.spaces[cr3].contains_key(p)
            &&& forall|p: u64|
                !(first <= p < end) ==> #[trigger] m1.spaces[cr3].contains_key(p)
                    == m.spaces[cr3].contains_key(p) && m1.spaces[cr3][p] == m.spaces[cr3][p]
            &&& forall|other: u64|
                other != cr3 ==> #[trigger] m1.spaces[other] == m.spaces[other]
        }),
{
    let n = pages_within(addr, len);
    lemma_unmapped(m.spaces[cr3], page_of(addr), n);
}

proof fn lemma_unmapped(m: Map<u64, PageEntry>, page: u64, n: nat)
    requires
        page + n <= 0x10_0000_0000,
    ensures
        ({
            let (ok, m1) = unmap_pages_s(m, page, n);
            &&& ok <==> forall|p: u64| page <= p < page + n ==> #[trigger] m.contains_key(p)
            &&& ok ==> forall|p: u64| page <= p < page + n ==> !#[trigger] m1.contains_key(p)
            &&& forall|p: u64|
                !(page <= p < page + n) ==> #[trigger] m1.contains_key(p) == m.contains_key(p)
                    && m1[p] == m[p]
        }),
    decreases n,
{
    if n > 0 && m.contains_key(page) {
        let rest = m.remove(page);
        let up = (page + 1) as u64;
        lemma_unmapped(rest, up, (n - 1) as nat);
        let (ok, m1) = unmap_pages_s(m, page, n);
        if ok {
            assert forall|p: u64| page <= p < page + n implies #[trigger] m.contains_key(p) by {
                if p != page {
                    assert(rest.contains_key(p));
                }
            }
        }
        if forall|p: u64| page <= p < page + n ==> #[trigger] m.contains_key(p) {
            assert forall|p: u64| up <= p < up + n - 1 implies #[trigger] rest.contains_key(p) by {
                assert(m.contains_key(p));
            }
        }
        assert(!m1.contains_key(page)) by {
            assert(m1.contains_key(page) == rest.contains_key(page));
        }
    }
}

} // verus!
