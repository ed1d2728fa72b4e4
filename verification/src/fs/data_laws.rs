//! What a write to a NextFS file leaves to be read: the bytes written, where
//! they were written, and everything else as it was.

use crate::bytes::{get32, le32, patch, zeros};
use crate::fs::laws::{law_alloc_block, law_inode_reads_back, lemma_patch, volume_ok};
use crate::fs::nextfs::{
    alloc_block_s, alloc_inode_block_s, block_ptr, byte_at, ensure_indirect_s, file_block,
    first_bad, inode_block, lemma_first_bad, obtain_block_s, put_block, read_inode_data_s,
    read_inode_s, read_span, same_but_ptrs, step_len, write_inode_data_s, write_inode_s,
    write_span_s, write_step_s, FsError, FsView,
};
use crate::fs::ondisk::{inode_shaped, InodeView, SuperblockView};
use vstd::prelude::*;

verus! {

/// The number of blocks a file can have.
pub open spec fn max_blocks() -> int {
    137
}

/// The block that holds block `a` of a file; 0 if there is none.
pub open spec fn ptr(disk: Seq<Seq<u8>>, i: InodeView, a: int) -> u32 {
    block_ptr(disk, i, a)->Ok_0
}

/// A block that the allocator cannot hand out.
pub open spec fn in_use(v: FsView, c: int) -> bool {
    !(v.sb.data_start <= c < v.sb.total_blocks && v.free[c])
}

/// The blocks of a file are data blocks in use, and no block serves twice.
pub open spec fn file_sound(v: FsView, i: InodeView) -> bool {
    &&& i.direct.len() == 9
    &&& i.indirect != 0 ==> v.sb.data_start <= i.indirect < v.sb.total_blocks
        && !v.free[i.indirect as int]
    &&& forall|a: int|
        0 <= a < max_blocks() && #[trigger] ptr(v.disk, i, a) != 0 ==> v.sb.data_start <= ptr(
            v.disk,
            i,
            a,
        ) < v.sb.total_blocks && !v.free[ptr(v.disk, i, a) as int] && ptr(v.disk, i, a)
            != i.indirect
    &&& forall|a: int, b: int|
        0 <= a < max_blocks() && 0 <= b < max_blocks() && a != b && #[trigger] ptr(v.disk, i, a)
            != 0 ==> ptr(v.disk, i, a) != #[trigger] ptr(v.disk, i, b)
}

/// Whether a block belongs to a file.
pub open spec fn owns(v: FsView, i: InodeView, c: int) -> bool {
    ||| i.indirect != 0 && c == i.indirect
    ||| exists|a: int|
        0 <= a < max_blocks() && #[trigger] ptr(v.disk, i, a) != 0 && c == ptr(v.disk, i, a)
}

/// What block `a` of a file holds; a missing block reads as zeros.
pub open spec fn content(disk: Seq<Seq<u8>>, i: InodeView, a: int) -> Seq<u8> {
    if ptr(disk, i, a) == 0 {
        zeros(512)
    } else {
        disk[ptr(disk, i, a) as int]
    }
}

/// One state follows another by changing a single file: blocks in use that are
/// not the file's stay as they are, no block in use is given back, and the file
/// gains only blocks that were free.
pub open spec fn evolved(v: FsView, i: InodeView, v1: FsView, i1: InodeView) -> bool {
    &&& volume_ok(v1)
    &&& file_sound(v1, i1)
    &&& same_but_ptrs(i, i1)
    &&& v1.sb == (SuperblockView { free_blocks: v1.sb.free_blocks, ..v.sb })
    &&& v1.used == v.used
    &&& v1.disk.len() == v.disk.len()
    &&& forall|c: int|
        0 <= c < v.disk.len() && in_use(v, c) && !owns(v, i, c) ==> #[trigger] v1.disk[c]
            == v.disk[c]
    &&& forall|c: int| #[trigger] in_use(v, c) ==> in_use(v1, c)
    &&& forall|c: int| #[trigger] owns(v1, i1, c) ==> owns(v, i, c) || !in_use(v, c)
}

pub proof fn lemma_evolved_trans(
    v: FsView,
    i: InodeView,
    v1: FsView,
    i1: InodeView,
    v2: FsView,
    i2: InodeView,
)
    requires
        evolved(v, i, v1, i1),
        evolved(v1, i1, v2, i2),
    ensures
        evolved(v, i, v2, i2),
{
    assert forall|c: int| 0 <= c < v.disk.len() && in_use(v, c) && !owns(v, i, c) implies #[trigger] v2.disk[c]
        == v.disk[c] by {
        assert(in_use(v1, c));
        assert(!owns(v1, i1, c));
        assert(v1.disk[c] == v.disk[c]);
    }
    assert forall|c: int| #[trigger] owns(v2, i2, c) implies owns(v, i, c) || !in_use(v, c) by {
        if owns(v1, i1, c) {
        } else {
            assert(!in_use(v1, c));
            if in_use(v, c) {
                assert(in_use(v1, c));
            }
        }
    }
    assert forall|c: int| #[trigger] in_use(v, c) implies in_use(v2, c) by {
        assert(in_use(v1, c));
    }
}

/// Nothing but the pointers of an inode decides where its blocks are.
proof fn lemma_get32_zeros(k: int)
    requires
        0 <= k < 128,
    ensures
        get32(zeros(512), 4 * k) == 0,
{
}

/// Storing one pointer in a block of pointers leaves the others.
proof fn lemma_get32_patch(b: Seq<u8>, k: int, d: u32, j: int)
    requires
        b.len() == 512,
        0 <= k < 128,
        0 <= j < 128,
    ensures
        get32(patch(b, 4 * k, le32(d)), 4 * j) == if j == k {
            d
        } else {
            get32(b, 4 * j)
        },
        patch(b, 4 * k, le32(d)).len() == 512,
{
    let p = patch(b, 4 * k, le32(d));
    lemma_patch(b, 4 * k, le32(d));
    if j == k {
        assert(p.subrange(4 * k, 4 * k + 4) == le32(d));
        crate::bytes::lemma_get32(p, 4 * k, d);
    } else {
        assert(p[4 * j] == b[4 * j] && p[4 * j + 1] == b[4 * j + 1] && p[4 * j + 2] == b[4 * j + 2]
            && p[4 * j + 3] == b[4 * j + 3]);
    }
}

/// Taking a block leaves a sound file sound and unchanged.
proof fn lemma_alloc_keeps(v: FsView, i: InodeView)
    requires
        volume_ok(v),
        file_sound(v, i),
        alloc_block_s(v).0 is Ok,
    ensures
        ({
            let (r, v1) = alloc_block_s(v);
            let b = r->Ok_0 as int;
            &&& evolved(v, i, v1, i)
            &&& v1.disk == v.disk
            &&& v.sb.data_start <= b < v.sb.total_blocks
            &&& v.free[b]
            &&& !in_use(v, b)
            &&& in_use(v1, b)
            &&& !owns(v, i, b)
            &&& !v1.free[b]
            &&& v1.sb == (SuperblockView { free_blocks: v1.sb.free_blocks, ..v.sb })
        }),
{
    law_alloc_block(v);
    let (r, v1) = alloc_block_s(v);
    let b = r->Ok_0 as int;
    assert(file_sound(v1, i)) by {
        assert forall|a: int| 0 <= a < max_blocks() && #[trigger] ptr(v1.disk, i, a) != 0 implies v1.sb.data_start
            <= ptr(v1.disk, i, a) < v1.sb.total_blocks && !v1.free[ptr(v1.disk, i, a) as int]
            && ptr(v1.disk, i, a) != i.indirect by {
            assert(ptr(v.disk, i, a) != 0);
        }
    }
    assert forall|c: int| #[trigger] owns(v1, i, c) implies owns(v, i, c) by {
        if !(i.indirect != 0 && c == i.indirect) {
            let a = choose|a: int|
                0 <= a < max_blocks() && #[trigger] ptr(v1.disk, i, a) != 0 && c == ptr(
                    v1.disk,
                    i,
                    a,
                );
            assert(ptr(v.disk, i, a) != 0);
        }
    }
}

/// Giving a file its indirect block changes nothing that can be read.
proof fn lemma_ensure_indirect(v: FsView, i: InodeView)
    requires
        volume_ok(v),
        file_sound(v, i),
        ensure_indirect_s(v, i).0 is Ok,
    ensures
        ({
            let (r, v1, i1) = ensure_indirect_s(v, i);
            &&& evolved(v, i, v1, i1)
            &&& i1.indirect != 0
            &&& forall|a: int|
                0 <= a < max_blocks() ==> #[trigger] ptr(v1.disk, i1, a) == ptr(v.disk, i, a)
            &&& forall|a: int|
                0 <= a < max_blocks() ==> #[trigger] content(v1.disk, i1, a) == content(
                    v.disk,
                    i,
                    a,
                )
        }),
{
    if i.indirect == 0 {
        lemma_alloc_keeps(v, i);
        let (r, va) = alloc_block_s(v);
        let b = r->Ok_0;
        let (v1, i1) = (ensure_indirect_s(v, i).1, ensure_indirect_s(v, i).2);
        assert(v1.disk == v.disk.update(b as int, zeros(512)));
        assert forall|a: int| 0 <= a < max_blocks() implies #[trigger] ptr(v1.disk, i1, a) == ptr(
            v.disk,
            i,
            a,
        ) by {
            if a >= 9 {
                lemma_get32_zeros(a - 9);
            }
        }
        assert(file_sound(v1, i1)) by {
            assert forall|a: int| 0 <= a < max_blocks() && #[trigger] ptr(v1.disk, i1, a)
                != 0 implies v1.sb.data_start <= ptr(v1.disk, i1, a) < v1.sb.total_blocks
                && !v1.free[ptr(v1.disk, i1, a) as int] && ptr(v1.disk, i1, a) != i1.indirect by {
                assert(ptr(v.disk, i, a) != 0);
            }
            assert forall|a: int, c: int|
                0 <= a < max_blocks() && 0 <= c < max_blocks() && a != c && #[trigger] ptr(
                    v1.disk,
                    i1,
                    a,
                ) != 0 implies ptr(v1.disk, i1, a) != #[trigger] ptr(v1.disk, i1, c) by {
                assert(ptr(v.disk, i, a) != ptr(v.disk, i, c));
            }
        }
        assert forall|c: int| #[trigger] owns(v1, i1, c) implies owns(v, i, c) || !in_use(v, c) by {
            if c != b {
                let a = choose|a: int|
                    0 <= a < max_blocks() && #[trigger] ptr(v1.disk, i1, a) != 0 && c == ptr(
                        v1.disk,
                        i1,
                        a,
                    );
                assert(ptr(v.disk, i, a) == c);
            }
        }
        assert forall|a: int| 0 <= a < max_blocks() implies #[trigger] content(v1.disk, i1, a)
            == content(v.disk, i, a) by {
            assert(ptr(v1.disk, i1, a) == ptr(v.disk, i, a));
            if ptr(v.disk, i, a) != 0 {
                assert(owns(v, i, ptr(v.disk, i, a) as int));
            }
        }
    }
}

/// What giving block `idx` of a file a new block amounts to.
pub open spec fn slot_filled(
    v: FsView,
    i: InodeView,
    v1: FsView,
    i1: InodeView,
    idx: int,
    b: u32,
) -> bool {
    &&& evolved(v, i, v1, i1)
    &&& b != 0
    &&& b < v1.disk.len()
    &&& ptr(v1.disk, i1, idx) == b
    &&& forall|a: int|
        0 <= a < max_blocks() && a != idx ==> #[trigger] ptr(v1.disk, i1, a) == ptr(v.disk, i, a)
    &&& forall|a: int|
        0 <= a < max_blocks() && a != idx ==> #[trigger] content(v1.disk, i1, a) == content(
            v.disk,
            i,
            a,
        )
}

proof fn lemma_fill_direct(v: FsView, i: InodeView, idx: int)
    requires
        volume_ok(v),
        file_sound(v, i),
        0 <= idx < 9,
        ptr(v.disk, i, idx) == 0,
        alloc_inode_block_s(v, i, idx).0 is Ok,
    ensures
        ({
            let (r, v1, i1) = alloc_inode_block_s(v, i, idx);
            slot_filled(v, i, v1, i1, idx, r->Ok_0)
        }),
{
    lemma_alloc_keeps(v, i);
    let (r, v1, i1) = alloc_inode_block_s(v, i, idx);
    let b = r->Ok_0;
    assert forall|a: int| 0 <= a < max_blocks() && a != idx implies #[trigger] ptr(v1.disk, i1, a)
        == ptr(v.disk, i, a) by {}
    assert(file_sound(v1, i1)) by {
        assert forall|a: int| 0 <= a < max_blocks() && #[trigger] ptr(v1.disk, i1, a)
            != 0 implies v1.sb.data_start <= ptr(v1.disk, i1, a) < v1.sb.total_blocks
            && !v1.free[ptr(v1.disk, i1, a) as int] && ptr(v1.disk, i1, a) != i1.indirect by {
            if a != idx {
                assert(ptr(v.disk, i, a) != 0);
            }
        }
        assert forall|a: int, c: int|
            0 <= a < max_blocks() && 0 <= c < max_blocks() && a != c && #[trigger] ptr(
                v1.disk,
                i1,
                a,
            ) != 0 implies ptr(v1.disk, i1, a) != #[trigger] ptr(v1.disk, i1, c) by {
            if a == idx {
                if ptr(v.disk, i, c) != 0 {
                    assert(owns(v, i, ptr(v.disk, i, c) as int));
                }
            } else if c == idx {
                assert(owns(v, i, ptr(v.disk, i, a) as int));
            } else {
                assert(ptr(v.disk, i, a) != ptr(v.disk, i, c));
            }
        }
    }
    assert forall|c: int| #[trigger] owns(v1, i1, c) implies owns(v, i, c) || !in_use(v, c) by {
        if c != b && !(i.indirect != 0 && c == i.indirect) {
            let a = choose|a: int|
                0 <= a < max_blocks() && #[trigger] ptr(v1.disk, i1, a) != 0 && c == ptr(
                    v1.disk,
                    i1,
                    a,
                );
            assert(ptr(v.disk, i, a) == c);
        }
    }
    assert forall|a: int| 0 <= a < max_blocks() && a != idx implies #[trigger] content(
        v1.disk,
        i1,
        a,
    ) == content(v.disk, i, a) by {
        assert(ptr(v1.disk, i1, a) == ptr(v.disk, i, a));
    }
}

proof fn lemma_fill_indirect(v: FsView, i: InodeView, idx: int)
    requires
        volume_ok(v),
        file_sound(v, i),
        9 <= idx < max_blocks(),
        i.indirect != 0,
        ptr(v.disk, i, idx) == 0,
        alloc_inode_block_s(v, i, idx).0 is Ok,
    ensures
        ({
            let (r, v1, i1) = alloc_inode_block_s(v, i, idx);
            slot_filled(v, i, v1, i1, idx, r->Ok_0) && i1 == i
        }),
{
    lemma_alloc_keeps(v, i);
    let (ra, va) = alloc_block_s(v);
    let b = ra->Ok_0;
    let (r, v1, i1) = alloc_inode_block_s(v, i, idx);
    let old_block = v.disk[i.indirect as int];
    let new_block = patch(old_block, 4 * (idx - 9), le32(b));
    assert(v1.disk == v.disk.update(i.indirect as int, new_block));
    assert forall|a: int| 0 <= a < max_blocks() implies #[trigger] ptr(v1.disk, i, a) == if a
        == idx {
        b
    } else {
        ptr(v.disk, i, a)
    } by {
        if a >= 9 {
            lemma_get32_patch(old_block, idx - 9, b, a - 9);
        }
    }
    lemma_get32_patch(old_block, idx - 9, b, 0);
    assert(owns(v, i, i.indirect as int));
    assert(file_sound(v1, i)) by {
        assert forall|a: int| 0 <= a < max_blocks() && #[trigger] ptr(v1.disk, i, a)
            != 0 implies v1.sb.data_start <= ptr(v1.disk, i, a) < v1.sb.total_blocks
            && !v1.free[ptr(v1.disk, i, a) as int] && ptr(v1.disk, i, a) != i.indirect by {
            if a != idx {
                assert(ptr(v.disk, i, a) != 0);
            }
        }
        assert forall|a: int, c: int|
            0 <= a < max_blocks() && 0 <= c < max_blocks() && a != c && #[trigger] ptr(
                v1.disk,
                i,
                a,
            ) != 0 implies ptr(v1.disk, i, a) != #[trigger] ptr(v1.disk, i, c) by {
            if a == idx {
                if ptr(v.disk, i, c) != 0 {
                    assert(owns(v, i, ptr(v.disk, i, c) as int));
                }
            } else if c == idx {
                assert(owns(v, i, ptr(v.disk, i, a) as int));
            } else {
                assert(ptr(v.disk, i, a) != ptr(v.disk, i, c));
            }
        }
    }
    assert forall|c: int| #[trigger] owns(v1, i, c) implies owns(v, i, c) || !in_use(v, c) by {
        if c != b && c != i.indirect {
            let a = choose|a: int|
                0 <= a < max_blocks() && #[trigger] ptr(v1.disk, i, a) != 0 && c == ptr(
                    v1.disk,
                    i,
                    a,
                );
            assert(ptr(v.disk, i, a) == c);
        }
    }
    assert forall|a: int| 0 <= a < max_blocks() && a != idx implies #[trigger] content(
        v1.disk,
        i,
        a,
    ) == content(v.disk, i, a) by {
        assert(ptr(v1.disk, i, a) == ptr(v.disk, i, a));
    }
}

/// Taking a block for block `idx` of a file.
proof fn lemma_fill(v: FsView, i: InodeView, idx: int)
    requires
        volume_ok(v),
        file_sound(v, i),
        0 <= idx < max_blocks(),
        ptr(v.disk, i, idx) == 0,
        alloc_inode_block_s(v, i, idx).0 is Ok,
    ensures
        ({
            let (r, v1, i1) = alloc_inode_block_s(v, i, idx);
            slot_filled(v, i, v1, i1, idx, r->Ok_0)
        }),
{
    if idx < 9 {
        lemma_fill_direct(v, i, idx);
    } else {
        lemma_ensure_indirect(v, i);
        let (rm, vm, im) = ensure_indirect_s(v, i);
        assert(ensure_indirect_s(vm, im) == (Ok::<(), FsError>(()), vm, im));
        assert(ptr(vm.disk, im, idx) == 0);
        assert(alloc_inode_block_s(v, i, idx) == alloc_inode_block_s(vm, im, idx));
        lemma_fill_indirect(vm, im, idx);
        let (r, v1, i1) = alloc_inode_block_s(v, i, idx);
        lemma_evolved_trans(v, i, vm, im, v1, i1);
        assert forall|a: int| 0 <= a < max_blocks() && a != idx implies #[trigger] ptr(
            v1.disk,
            i1,
            a,
        ) == ptr(v.disk, i, a) by {
            assert(ptr(vm.disk, im, a) == ptr(v.disk, i, a));
        }
        assert forall|a: int| 0 <= a < max_blocks() && a != idx implies #[trigger] content(
            v1.disk,
            i1,
            a,
        ) == content(v.disk, i, a) by {
            assert(content(vm.disk, im, a) == content(v.disk, i, a));
        }
    }
}

/// Overwriting a data block of a file changes that block of the file only.
pub proof fn lemma_store(v: FsView, i: InodeView, idx: int, data: Seq<u8>)
    requires
        volume_ok(v),
        file_sound(v, i),
        0 <= idx < max_blocks(),
        ptr(v.disk, i, idx) != 0,
        data.len() == 512,
    ensures
        ({
            let v1 = put_block(v, ptr(v.disk, i, idx) as int, data).1;
            &&& put_block(v, ptr(v.disk, i, idx) as int, data).0 is Ok
            &&& evolved(v, i, v1, i)
            &&& content(v1.disk, i, idx) == data
            &&& forall|a: int|
                0 <= a < max_blocks() ==> #[trigger] ptr(v1.disk, i, a) == ptr(v.disk, i, a)
            &&& forall|a: int|
                0 <= a < max_blocks() && a != idx ==> #[trigger] content(v1.disk, i, a) == content(
                    v.disk,
                    i,
                    a,
                )
        }),
{
    let b = ptr(v.disk, i, idx);
    let v1 = put_block(v, b as int, data).1;
    assert(v1.disk == v.disk.update(b as int, data));
    assert forall|a: int| 0 <= a < max_blocks() implies #[trigger] ptr(v1.disk, i, a) == ptr(
        v.disk,
        i,
        a,
    ) by {}
    assert(owns(v, i, b as int));
    assert(file_sound(v1, i)) by {
        assert forall|a: int| 0 <= a < max_blocks() && #[trigger] ptr(v1.disk, i, a)
            != 0 implies v1.sb.data_start <= ptr(v1.disk, i, a) < v1.sb.total_blocks
            && !v1.free[ptr(v1.disk, i, a) as int] && ptr(v1.disk, i, a) != i.indirect by {
            assert(ptr(v.disk, i, a) != 0);
        }
        assert forall|a: int, c: int|
            0 <= a < max_blocks() && 0 <= c < max_blocks() && a != c && #[trigger] ptr(
                v1.disk,
                i,
                a,
            ) != 0 implies ptr(v1.disk, i, a) != #[trigger] ptr(v1.disk, i, c) by {
            assert(ptr(v.disk, i, a) != ptr(v.disk, i, c));
        }
    }
    assert forall|c: int| #[trigger] owns(v1, i, c) implies owns(v, i, c) by {
        if !(i.indirect != 0 && c == i.indirect) {
            let a = choose|a: int|
                0 <= a < max_blocks() && #[trigger] ptr(v1.disk, i, a) != 0 && c == ptr(
                    v1.disk,
                    i,
                    a,
                );
            assert(ptr(v.disk, i, a) == c);
        }
    }
    assert forall|a: int| 0 <= a < max_blocks() && a != idx implies #[trigger] content(
        v1.disk,
        i,
        a,
    ) == content(v.disk, i, a) by {
        assert(ptr(v1.disk, i, a) == ptr(v.disk, i, a));
        if ptr(v.disk, i, a) != 0 {
            assert(ptr(v.disk, i, a) != ptr(v.disk, i, idx));
        }
    }
}

/// Obtaining the block for block `idx` of a file changes nothing that can be
/// read.
proof fn lemma_obtain(v: FsView, i: InodeView, idx: int)
    requires
        volume_ok(v),
        file_sound(v, i),
        0 <= idx < max_blocks(),
        obtain_block_s(v, i, idx).0 is Ok,
    ensures
        ({
            let (r, v1, i1) = obtain_block_s(v, i, idx);
            &&& evolved(v, i, v1, i1)
            &&& ptr(v1.disk, i1, idx) == r->Ok_0
            &&& r->Ok_0 != 0
            &&& forall|a: int|
                0 <= a < max_blocks() && a != idx ==> #[trigger] ptr(v1.disk, i1, a) == ptr(
                    v.disk,
                    i,
                    a,
                )
            &&& forall|a: int|
                0 <= a < max_blocks() ==> #[trigger] content(v1.disk, i1, a) == content(
                    v.disk,
                    i,
                    a,
                )
        }),
{
    let p = ptr(v.disk, i, idx);
    if p == 0 {
        let (ra, va, ia) = alloc_inode_block_s(v, i, idx);
        lemma_fill(v, i, idx);
        lemma_store(va, ia, idx, zeros(512));
        let (r, v1, i1) = obtain_block_s(v, i, idx);
        lemma_evolved_trans(v, i, va, ia, v1, i1);
        assert forall|a: int| 0 <= a < max_blocks() && a != idx implies #[trigger] ptr(
            v1.disk,
            i1,
            a,
        ) == ptr(v.disk, i, a) by {
            assert(ptr(va.disk, ia, a) == ptr(v.disk, i, a));
        }
        assert forall|a: int| 0 <= a < max_blocks() implies #[trigger] content(v1.disk, i1, a)
            == content(v.disk, i, a) by {
            if a != idx {
                assert(content(va.disk, ia, a) == content(v.disk, i, a));
            }
        }
    }
}

/// Storing bytes within one block of a file.
pub proof fn lemma_write_step(v: FsView, i: InodeView, pos: int, chunk: Seq<u8>)
    requires
        volume_ok(v),
        file_sound(v, i),
        0 <= pos,
        pos / 512 < max_blocks(),
        pos % 512 + chunk.len() <= 512,
        write_step_s(v, i, pos, chunk).0 is Ok,
    ensures
        ({
            let (r, v1, i1) = write_step_s(v, i, pos, chunk);
            &&& evolved(v, i, v1, i1)
            &&& ptr(v1.disk, i1, pos / 512) != 0
            &&& forall|a: int|
                0 <= a < max_blocks() && a != pos / 512 ==> #[trigger] ptr(v1.disk, i1, a) == ptr(
                    v.disk,
                    i,
                    a,
                )
            &&& content(v1.disk, i1, pos / 512) == patch(
                content(v.disk, i, pos / 512),
                pos % 512,
                chunk,
            )
            &&& forall|a: int|
                0 <= a < max_blocks() && a != pos / 512 ==> #[trigger] content(v1.disk, i1, a)
                    == content(v.disk, i, a)
        }),
{
    let idx = pos / 512;
    assert(file_block(pos) == idx);
    let (ro, vo, io) = obtain_block_s(v, i, idx);
    lemma_obtain(v, i, idx);
    let b = ro->Ok_0;
    let data = patch(vo.disk[b as int], pos % 512, chunk);
    lemma_patch(vo.disk[b as int], pos % 512, chunk);
    lemma_store(vo, io, idx, data);
    let (r, v1, i1) = write_step_s(v, i, pos, chunk);
    lemma_evolved_trans(v, i, vo, io, v1, i1);
    assert forall|a: int| 0 <= a < max_blocks() && a != pos / 512 implies #[trigger] ptr(
        v1.disk,
        i1,
        a,
    ) == ptr(v.disk, i, a) by {
        assert(ptr(vo.disk, io, a) == ptr(v.disk, i, a));
    }
    assert(content(vo.disk, io, idx) == content(v.disk, i, idx));
    assert forall|a: int| 0 <= a < max_blocks() && a != pos / 512 implies #[trigger] content(
        v1.disk,
        i1,
        a,
    ) == content(v.disk, i, a) by {
        assert(content(vo.disk, io, a) == content(v.disk, i, a));
    }
}

/// Byte `p` of a file.
pub open spec fn file_byte(disk: Seq<Seq<u8>>, i: InodeView, p: int) -> u8 {
    content(disk, i, p / 512)[p % 512]
}

/// A byte of a sound file can be read, and is what its block holds.
pub proof fn lemma_byte_at(v: FsView, i: InodeView, p: int)
    requires
        volume_ok(v),
        file_sound(v, i),
        0 <= p < 512 * max_blocks(),
    ensures
        byte_at(v.disk, i, p) == Ok::<u8, FsError>(file_byte(v.disk, i, p)),
        content(v.disk, i, p / 512).len() == 512,
{
    assert(file_block(p) == p / 512);
    let q = ptr(v.disk, i, p / 512);
    if q != 0 {
        assert(v.disk[q as int].len() == 512);
    }
}

/// Storing data in a file: the bytes written are what is read there, all other
/// bytes of the file read as before, and no block in use that is not the file's
/// changes.
pub proof fn lemma_write_span(v: FsView, i: InodeView, pos: int, data: Seq<u8>)
    requires
        volume_ok(v),
        file_sound(v, i),
        0 <= pos,
        pos + data.len() <= 512 * max_blocks(),
        write_span_s(v, i, pos, data).0 is Ok,
    ensures
        ({
            let (r, v1, i1) = write_span_s(v, i, pos, data);
            &&& evolved(v, i, v1, i1)
            &&& forall|p: int|
                0 <= p < 512 * max_blocks() ==> #[trigger] file_byte(v1.disk, i1, p) == if pos <= p
                    < pos + data.len() {
                    data[p - pos]
                } else {
                    file_byte(v.disk, i, p)
                }
        }),
    decreases data.len(),
{
    if data.len() > 0 {
        let n = step_len(pos, data.len() as int);
        let chunk = data.subrange(0, n);
        let (rs, vs, is_) = write_step_s(v, i, pos, chunk);
        lemma_write_step(v, i, pos, chunk);
        lemma_write_span(vs, is_, pos + n, data.skip(n));
        let (r, v1, i1) = write_span_s(v, i, pos, data);
        lemma_evolved_trans(v, i, vs, is_, v1, i1);
        lemma_byte_at(v, i, pos);
        lemma_patch(content(v.disk, i, pos / 512), pos % 512, chunk);
        assert forall|p: int| 0 <= p < 512 * max_blocks() implies #[trigger] file_byte(
            v1.disk,
            i1,
            p,
        ) == if pos <= p < pos + data.len() {
            data[p - pos]
        } else {
            file_byte(v.disk, i, p)
        } by {
            if p / 512 == pos / 512 {
                if pos <= p < pos + n {
                    assert(p % 512 - pos % 512 == p - pos);
                }
            } else {
                assert(content(vs.disk, is_, p / 512) == content(v.disk, i, p / 512));
            }
        }
    }
}

/// A write that succeeds ends within the largest file.
pub proof fn lemma_write_span_fits(v: FsView, i: InodeView, pos: int, data: Seq<u8>)
    requires
        0 <= pos <= 512 * max_blocks(),
        write_span_s(v, i, pos, data).0 is Ok,
    ensures
        pos + data.len() <= 512 * max_blocks(),
    decreases data.len(),
{
    if data.len() > 0 {
        let n = step_len(pos, data.len() as int);
        let (rs, vs, is_) = write_step_s(v, i, pos, data.subrange(0, n));
        if pos == 512 * max_blocks() {
            assert(file_block(pos) == max_blocks());
            assert(false);
        }
        lemma_write_span_fits(vs, is_, pos + n, data.skip(n));
    }
}

/// Two states in which a file has the same blocks with the same contents.
pub open spec fn same_file(v: FsView, v1: FsView, j: InodeView) -> bool {
    &&& forall|a: int| 0 <= a ==> #[trigger] block_ptr(v1.disk, j, a) == block_ptr(v.disk, j, a)
    &&& forall|a: int|
        0 <= a < max_blocks() ==> #[trigger] content(v1.disk, j, a) == content(v.disk, j, a)
    &&& v1.disk.len() == v.disk.len()
}

/// Blocks that a sound file does not own decide nothing of it.
pub proof fn lemma_same_file(v: FsView, v1: FsView, j: InodeView)
    requires
        volume_ok(v),
        file_sound(v, j),
        v1.disk.len() == v.disk.len(),
        forall|c: int| #[trigger] owns(v, j, c) ==> v1.disk[c] == v.disk[c],
    ensures
        same_file(v, v1, j),
{
    if j.indirect != 0 {
        assert(owns(v, j, j.indirect as int));
    }
    assert forall|a: int| 0 <= a implies #[trigger] block_ptr(v1.disk, j, a) == block_ptr(
        v.disk,
        j,
        a,
    ) by {}
    assert forall|a: int| 0 <= a < max_blocks() implies #[trigger] content(v1.disk, j, a)
        == content(v.disk, j, a) by {
        assert(block_ptr(v1.disk, j, a) == block_ptr(v.disk, j, a));
        if ptr(v.disk, j, a) != 0 {
            assert(owns(v, j, ptr(v.disk, j, a) as int));
        }
    }
}

/// A file whose blocks stay as they are reads the same.
pub proof fn lemma_same_read(v: FsView, v1: FsView, j: InodeView, pos: int, m: int)
    requires
        same_file(v, v1, j),
        0 <= pos,
    ensures
        read_span(v1.disk, j, pos, m) == read_span(v.disk, j, pos, m),
{
    assert forall|p: int| 0 <= p implies #[trigger] byte_at(v1.disk, j, p) == byte_at(
        v.disk,
        j,
        p,
    ) by {
        let a = file_block(p);
        assert(block_ptr(v1.disk, j, a) == block_ptr(v.disk, j, a));
        if a < max_blocks() {
            assert(content(v1.disk, j, a) == content(v.disk, j, a));
        }
    }
    lemma_same_first_bad(v.disk, v1.disk, j, pos, m);
    lemma_first_bad_bound(v.disk, j, pos, m);
    if first_bad(v.disk, j, pos, m) >= m {
        assert(read_span(v1.disk, j, pos, m)->Ok_0 =~= read_span(v.disk, j, pos, m)->Ok_0);
    }
}

proof fn lemma_first_bad_bound(disk: Seq<Seq<u8>>, i: InodeView, pos: int, m: int)
    ensures
        0 <= first_bad(disk, i, pos, m),
        m >= 0 ==> first_bad(disk, i, pos, m) <= m,
    decreases m,
{
    if m > 0 && byte_at(disk, i, pos) is Ok {
        lemma_first_bad_bound(disk, i, pos + 1, m - 1);
    }
}

proof fn lemma_same_first_bad(d: Seq<Seq<u8>>, d1: Seq<Seq<u8>>, j: InodeView, pos: int, m: int)
    requires
        0 <= pos,
        forall|p: int| 0 <= p ==> #[trigger] byte_at(d1, j, p) == byte_at(d, j, p),
    ensures
        first_bad(d1, j, pos, m) == first_bad(d, j, pos, m),
    decreases m,
{
    if m > 0 && byte_at(d, j, pos) is Ok {
        lemma_same_first_bad(d, d1, j, pos + 1, m - 1);
    }
}

/// Reading within a sound file always succeeds and gives its bytes.
pub proof fn lemma_read_span(v: FsView, i: InodeView, pos: int, m: int)
    requires
        volume_ok(v),
        file_sound(v, i),
        0 <= pos,
        0 <= m,
        pos + m <= 512 * max_blocks(),
    ensures
        read_span(v.disk, i, pos, m) == Ok::<Seq<u8>, FsError>(
            Seq::new(m as nat, |k: int| file_byte(v.disk, i, pos + k)),
        ),
{
    assert forall|k: int| 0 <= k < m implies (#[trigger] byte_at(v.disk, i, pos + k)) == Ok::<
        u8,
        FsError,
    >(file_byte(v.disk, i, pos + k)) by {
        lemma_byte_at(v, i, pos + k);
    }
    lemma_first_bad(v.disk, i, pos, m, m);
    assert(read_span(v.disk, i, pos, m)->Ok_0 =~= Seq::new(
        m as nat,
        |k: int| file_byte(v.disk, i, pos + k),
    ));
}

/// Storing an inode touches no data block: files keep their blocks and their
/// contents.
pub proof fn lemma_inode_write_keeps(v: FsView, n: u32, i: InodeView, j: InodeView)
    requires
        volume_ok(v),
        inode_shaped(i),
        file_sound(v, j),
        write_inode_s(v, n, i).0 is Ok,
    ensures
        ({
            let v1 = write_inode_s(v, n, i).1;
            &&& volume_ok(v1)
            &&& file_sound(v1, j)
            &&& same_file(v, v1, j)
            &&& v1.free == v.free && v1.used == v.used && v1.sb == v.sb
        }),
{
    law_inode_reads_back(v, n, i, n);
    let v1 = write_inode_s(v, n, i).1;
    let b = inode_block(v.sb.inode_table_start, n);
    assert(b < v.sb.data_start);
    assert forall|c: int| #[trigger] owns(v, j, c) implies v1.disk[c] == v.disk[c] by {}
    lemma_same_file(v, v1, j);
    assert(file_sound(v1, j)) by {
        assert forall|a: int| 0 <= a < max_blocks() implies #[trigger] ptr(v1.disk, j, a) == ptr(
            v.disk,
            j,
            a,
        ) by {
            assert(block_ptr(v1.disk, j, a) == block_ptr(v.disk, j, a));
        }
    }
}

/// What was written to a file is what is read from it, and the rest of the file
/// is as before: after `data` was stored at `offset` and the inode saved,
/// reading any range within the file gives the bytes of `data` where it was
/// written and the former bytes elsewhere.
pub proof fn law_write_then_read(
    v: FsView,
    n: u32,
    i: InodeView,
    offset: u64,
    data: Seq<u8>,
    now: u32,
    from: u64,
    len: nat,
)
    requires
        volume_ok(v),
        file_sound(v, i),
        inode_shaped(i),
        i.inode_type == 1,
        i.size <= 512 * max_blocks(),
        offset <= 512 * max_blocks(),
        write_inode_data_s(v, i, offset, data, now).0 is Ok,
        ({
            let (r, v1, i1) = write_inode_data_s(v, i, offset, data, now);
            write_inode_s(v1, n, i1).0 is Ok
        }),
    ensures
        ({
            let (r, v1, i1) = write_inode_data_s(v, i, offset, data, now);
            let v2 = write_inode_s(v1, n, i1).1;
            &&& read_inode_data_s(v2, n, offset, data.len()) == Ok::<Seq<u8>, FsError>(data)
            &&& from + len <= i1.size ==> read_inode_data_s(v2, n, from, len) == Ok::<
                Seq<u8>,
                FsError,
            >(
                Seq::new(
                    len,
                    |k: int|
                        if offset <= from + k < offset + data.len() {
                            data[from + k - offset]
                        } else {
                            file_byte(v.disk, i, from + k)
                        },
                ),
            )
            &&& i1.size >= offset + data.len() && i1.size >= i.size
        }),
{
    let (r, v1, i1) = write_inode_data_s(v, i, offset, data, now);
    let v2 = write_inode_s(v1, n, i1).1;
    lemma_write_saved(v, n, i, offset, data, now);
    lemma_read_data_after(v, i, v1, i1, v2, n, offset, data, offset, data.len());
    let all = Seq::new(
        data.len(),
        |k: int|
            if offset <= offset + k < offset + data.len() {
                data[offset + k - offset]
            } else {
                file_byte(v.disk, i, offset + k)
            },
    );
    assert(all =~= data);
    if from + len <= i1.size {
        lemma_read_data_after(v, i, v1, i1, v2, n, offset, data, from, len);
    }
}

/// The state after data was stored and the inode saved.
pub proof fn lemma_write_saved(
    v: FsView,
    n: u32,
    i: InodeView,
    offset: u64,
    data: Seq<u8>,
    now: u32,
)
    requires
        volume_ok(v),
        file_sound(v, i),
        inode_shaped(i),
        i.inode_type == 1,
        i.size <= 512 * max_blocks(),
        offset <= 512 * max_blocks(),
        write_inode_data_s(v, i, offset, data, now).0 is Ok,
        ({
            let (r, v1, i1) = write_inode_data_s(v, i, offset, data, now);
            write_inode_s(v1, n, i1).0 is Ok
        }),
    ensures
        ({
            let (r, v1, i1) = write_inode_data_s(v, i, offset, data, now);
            let v2 = write_inode_s(v1, n, i1).1;
            &&& volume_ok(v2)
            &&& file_sound(v2, i1)
            &&& same_file(v1, v2, i1)
            &&& read_inode_s(v2, n) == Ok::<InodeView, FsError>(i1)
            &&& i1.inode_type == 1
            &&& offset + data.len() <= i1.size <= 512 * max_blocks()
            &&& i.size <= i1.size
            &&& file_updated(v, i, v1, i1, offset as int, data)
        }),
{
    let (rs, vs, is_) = write_span_s(v, i, offset as int, data);
    let (r, v1, i1) = write_inode_data_s(v, i, offset, data, now);
    lemma_write_span_fits(v, i, offset as int, data);
    lemma_write_span(v, i, offset as int, data);
    lemma_meta_irrelevant(v1, is_, i1);
    lemma_inode_write_keeps(v1, n, i1, i1);
    law_inode_reads_back(v1, n, i1, n);
    assert forall|p: int| 0 <= p < 512 * max_blocks() implies #[trigger] file_byte(v1.disk, i1, p)
        == if offset <= p < offset + data.len() {
        data[p - offset]
    } else {
        file_byte(v.disk, i, p)
    } by {
        assert(file_byte(vs.disk, is_, p) == file_byte(v1.disk, i1, p)) by {
            assert(content(v1.disk, i1, p / 512) == content(v1.disk, is_, p / 512));
        }
    }
}

/// The bytes of a file after `data` was stored at `pos`.
pub open spec fn file_updated(
    v: FsView,
    i: InodeView,
    v1: FsView,
    i1: InodeView,
    pos: int,
    data: Seq<u8>,
) -> bool {
    forall|p: int|
        0 <= p < 512 * max_blocks() ==> #[trigger] file_byte(v1.disk, i1, p) == if pos <= p < pos
            + data.len() {
            data[p - pos]
        } else {
            file_byte(v.disk, i, p)
        }
}

proof fn lemma_read_data_after(
    v: FsView,
    i: InodeView,
    v1: FsView,
    i1: InodeView,
    v2: FsView,
    n: u32,
    offset: u64,
    data: Seq<u8>,
    from: u64,
    len: nat,
)
    requires
        volume_ok(v2),
        file_sound(v2, i1),
        same_file(v1, v2, i1),
        read_inode_s(v2, n) == Ok::<InodeView, FsError>(i1),
        i1.inode_type == 1,
        from + len <= i1.size <= 512 * max_blocks(),
        file_updated(v, i, v1, i1, offset as int, data),
    ensures
        read_inode_data_s(v2, n, from, len) == Ok::<Seq<u8>, FsError>(
            Seq::new(
                len,
                |k: int|
                    if offset <= from + k < offset + data.len() {
                        data[from + k - offset]
                    } else {
                        file_byte(v.disk, i, from + k)
                    },
            ),
        ),
{
    let want = Seq::new(
        len,
        |k: int|
            if offset <= from + k < offset + data.len() {
                data[from + k - offset]
            } else {
                file_byte(v.disk, i, from + k)
            },
    );
    if from < i1.size {
        let m = if len < i1.size - from {
            len as int
        } else {
            i1.size - from
        };
        assert(m == len);
        lemma_read_after(v, i, v1, i1, v2, offset, data, from as int, m);
    } else {
        assert(want =~= Seq::<u8>::empty());
    }
}

/// Where the blocks of a file are depends on its pointers alone.
pub proof fn lemma_meta_irrelevant(v: FsView, i: InodeView, j: InodeView)
    requires
        file_sound(v, i),
        j.direct == i.direct,
        j.indirect == i.indirect,
    ensures
        file_sound(v, j),
        forall|a: int| #[trigger] block_ptr(v.disk, j, a) == block_ptr(v.disk, i, a),
        forall|a: int| #[trigger] content(v.disk, j, a) == content(v.disk, i, a),
        forall|c: int| #[trigger] owns(v, j, c) == owns(v, i, c),
{
    assert forall|a: int| #[trigger] block_ptr(v.disk, j, a) == block_ptr(v.disk, i, a) by {}
    assert forall|a: int| #[trigger] ptr(v.disk, j, a) == ptr(v.disk, i, a) by {}
    assert forall|c: int| #[trigger] owns(v, j, c) == owns(v, i, c) by {
        if owns(v, i, c) && !(i.indirect != 0 && c == i.indirect) {
            let a = choose|a: int|
                0 <= a < max_blocks() && #[trigger] ptr(v.disk, i, a) != 0 && c == ptr(
                    v.disk,
                    i,
                    a,
                );
            assert(ptr(v.disk, j, a) == c);
        }
        if owns(v, j, c) && !(i.indirect != 0 && c == i.indirect) {
            let a = choose|a: int|
                0 <= a < max_blocks() && #[trigger] ptr(v.disk, j, a) != 0 && c == ptr(
                    v.disk,
                    j,
                    a,
                );
            assert(ptr(v.disk, i, a) == c);
        }
    }
}

proof fn lemma_read_after(
    v: FsView,
    i: InodeView,
    v1: FsView,
    i1: InodeView,
    v2: FsView,
    offset: u64,
    data: Seq<u8>,
    from: int,
    m: int,
)
    requires
        volume_ok(v2),
        file_sound(v2, i1),
        same_file(v1, v2, i1),
        0 <= from,
        0 <= m,
        from + m <= 512 * max_blocks(),
        file_updated(v, i, v1, i1, offset as int, data),
    ensures
        read_span(v2.disk, i1, from, m) == Ok::<Seq<u8>, FsError>(
            Seq::new(
                m as nat,
                |k: int|
                    if offset <= from + k < offset + data.len() {
                        data[from + k - offset]
                    } else {
                        file_byte(v.disk, i, from + k)
                    },
            ),
        ),
{
    lemma_read_span(v2, i1, from, m);
    let want = Seq::new(
        m as nat,
        |k: int|
            if offset <= from + k < offset + data.len() {
                data[from + k - offset]
            } else {
                file_byte(v.disk, i, from + k)
            },
    );
    let have = Seq::new(m as nat, |k: int| file_byte(v2.disk, i1, from + k));
    assert forall|k: int| 0 <= k < m implies #[trigger] have[k] == want[k] by {
        assert(content(v2.disk, i1, (from + k) / 512) == content(v1.disk, i1, (from + k) / 512));
        assert(file_byte(v1.disk, i1, from + k) == want[k]);
    }
    assert(have =~= want);
}

} // verus!
